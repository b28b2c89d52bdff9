//! Byte encodings for every key and value that crosses into storage, with
//! round-trip and injectivity proofs.
//!
//! Within one category, distinct logical keys must never collide in encoded
//! form. The schemas sharing the block category keep their key spaces apart
//! by length alone: the latest-block pointer is 1 byte, the latest-proof
//! pointer 2 bytes, a height key 8 bytes and a digest key 32 bytes.

use vstd::prelude::*;

use crate::errors::StorageError;
use crate::types::{Block, BlockHeader, Proof, Receipt, SignedTransaction, HASH_BYTES};

verus! {

/// The eight big-endian bytes of `n`.
pub open spec fn be64(n: u64) -> Seq<u8> {
    seq![
        ((n >> 56) & 0xff) as u8,
        ((n >> 48) & 0xff) as u8,
        ((n >> 40) & 0xff) as u8,
        ((n >> 32) & 0xff) as u8,
        ((n >> 24) & 0xff) as u8,
        ((n >> 16) & 0xff) as u8,
        ((n >> 8) & 0xff) as u8,
        (n & 0xff) as u8,
    ]
}

/// The integer read back from eight big-endian bytes.
pub open spec fn be64_value(s: Seq<u8>) -> u64
    recommends
        s.len() == 8,
{
    ((s[0] as u64) << 56) | ((s[1] as u64) << 48) | ((s[2] as u64) << 40) | ((s[3] as u64) << 32)
        | ((s[4] as u64) << 24) | ((s[5] as u64) << 16) | ((s[6] as u64) << 8) | (s[7] as u64)
}

/// Decoding the big-endian bytes of `n` gives `n` back.
pub proof fn lemma_be64_roundtrip(n: u64)
    ensures
        be64_value(be64(n)) == n,
{
    assert(((((n >> 56) & 0xff) as u8 as u64) << 56) | ((((n >> 48) & 0xff) as u8 as u64) << 48)
        | ((((n >> 40) & 0xff) as u8 as u64) << 40) | ((((n >> 32) & 0xff) as u8 as u64) << 32)
        | ((((n >> 24) & 0xff) as u8 as u64) << 24) | ((((n >> 16) & 0xff) as u8 as u64) << 16)
        | ((((n >> 8) & 0xff) as u8 as u64) << 8) | ((n & 0xff) as u8 as u64) == n) by (bit_vector);
}

/// Eight bytes survive a decode followed by an encode.
pub proof fn lemma_be64_reencode(s: Seq<u8>)
    requires
        s.len() == 8,
    ensures
        be64(be64_value(s)) == s,
{
    let b0 = s[0];
    let b1 = s[1];
    let b2 = s[2];
    let b3 = s[3];
    let b4 = s[4];
    let b5 = s[5];
    let b6 = s[6];
    let b7 = s[7];
    let n = be64_value(s);
    assert({
        let m = ((b0 as u64) << 56) | ((b1 as u64) << 48) | ((b2 as u64) << 40) | ((b3 as u64)
            << 32) | ((b4 as u64) << 24) | ((b5 as u64) << 16) | ((b6 as u64) << 8) | (b7 as u64);
        ((m >> 56) & 0xff) as u8 == b0 && ((m >> 48) & 0xff) as u8 == b1 && ((m >> 40) & 0xff) as u8
            == b2 && ((m >> 32) & 0xff) as u8 == b3 && ((m >> 24) & 0xff) as u8 == b4 && ((m >> 16)
            & 0xff) as u8 == b5 && ((m >> 8) & 0xff) as u8 == b6 && (m & 0xff) as u8 == b7
    }) by (bit_vector);
    assert(be64(n) =~= s);
}

/// Big-endian encoding is injective: equal encodings come from equal heights.
pub proof fn lemma_be64_injective(a: u64, b: u64)
    requires
        be64(a) == be64(b),
    ensures
        a == b,
{
    lemma_be64_roundtrip(a);
    lemma_be64_roundtrip(b);
}

/// Appends the eight big-endian bytes of `n`.
pub fn push_be64(out: &mut Vec<u8>, n: u64)
    ensures
        final(out)@ == old(out)@ + be64(n),
{
    out.push(((n >> 56) & 0xff) as u8);
    out.push(((n >> 48) & 0xff) as u8);
    out.push(((n >> 40) & 0xff) as u8);
    out.push(((n >> 32) & 0xff) as u8);
    out.push(((n >> 24) & 0xff) as u8);
    out.push(((n >> 16) & 0xff) as u8);
    out.push(((n >> 8) & 0xff) as u8);
    out.push((n & 0xff) as u8);
    proof {
        assert(out@ =~= old(out)@ + be64(n));
    }
}

/// Reads the big-endian integer stored at `off`.
pub fn read_be64(v: &Vec<u8>, off: usize) -> (n: u64)
    requires
        off + 8 <= v@.len(),
    ensures
        n == be64_value(v@.subrange(off as int, off as int + 8)),
{
    let l = v.len();
    let n = ((v[off] as u64) << 56) | ((v[off + 1] as u64) << 48) | ((v[off + 2] as u64) << 40) | (
    (v[off + 3] as u64) << 32) | ((v[off + 4] as u64) << 24) | ((v[off + 5] as u64) << 16) | ((v[off
        + 6] as u64) << 8) | (v[off + 7] as u64);
    proof {
        let s = v@.subrange(off as int, off as int + 8);
        assert(s[0] == v@[off as int]);
        assert(s[7] == v@[off as int + 7]);
    }
    n
}

/// Appends every byte of `src`.
pub fn push_all(out: &mut Vec<u8>, src: &Vec<u8>)
    ensures
        final(out)@ == old(out)@ + src@,
{
    let mut i: usize = 0;
    while i < src.len()
        invariant
            i <= src@.len(),
            out@ == old(out)@ + src@.take(i as int),
        decreases src@.len() - i,
    {
        out.push(src[i]);
        i += 1;
        proof {
            assert(out@ =~= old(out)@ + src@.take(i as int));
        }
    }
    proof {
        assert(old(out)@ + src@.take(src@.len() as int) =~= old(out)@ + src@);
    }
}

/// A copy of the bytes `v[from..to]`.
pub fn sub_bytes(v: &Vec<u8>, from: usize, to: usize) -> (r: Vec<u8>)
    requires
        from <= to <= v@.len(),
    ensures
        r@ == v@.subrange(from as int, to as int),
{
    let mut r: Vec<u8> = Vec::new();
    let mut i: usize = from;
    while i < to
        invariant
            from <= i <= to <= v@.len(),
            r@ == v@.subrange(from as int, i as int),
        decreases to - i,
    {
        r.push(v[i]);
        i += 1;
        proof {
            assert(r@ =~= v@.subrange(from as int, i as int));
        }
    }
    r
}

// ------------------------------------------------------------------
// Value encodings.
// ------------------------------------------------------------------

/// Encoded form of a block: height, previous digest, own digest.
pub open spec fn spec_encode_block(b: Block) -> Seq<u8> {
    be64(b.header.height) + b.header.prev_hash@ + b.hash@
}

/// Byte length of an encoded block.
pub open spec fn block_enc_len() -> int {
    8 + 2 * HASH_BYTES as int
}

/// Encodes a block for storage.
pub fn encode_block(b: &Block) -> (v: Vec<u8>)
    ensures
        v@ == spec_encode_block(*b),
        v@.len() == block_enc_len(),
{
    proof {
        use_type_invariant(&b.header.prev_hash);
        use_type_invariant(&b.hash);
    }
    let mut v: Vec<u8> = Vec::new();
    push_be64(&mut v, b.header.height);
    push_all(&mut v, b.header.prev_hash.as_bytes());
    push_all(&mut v, b.hash.as_bytes());
    v
}

/// Decodes a stored block. Fails with a codec error exactly when the byte
/// length is wrong, the only malformation the encoding admits.
pub fn decode_block(v: &Vec<u8>) -> (r: Result<Block, StorageError>)
    ensures
        r is Ok <==> v@.len() == block_enc_len(),
        r matches Ok(b) ==> spec_encode_block(b) == v@,
        r matches Err(e) ==> e is Codec,
{
    if v.len() != 8 + 2 * HASH_BYTES {
        return Err(StorageError::Codec);
    }
    let height = read_be64(v, 0);
    let prev_hash = crate::types::Hash::from_exact(sub_bytes(v, 8, 8 + HASH_BYTES));
    let hash = crate::types::Hash::from_exact(sub_bytes(v, 8 + HASH_BYTES, 8 + 2 * HASH_BYTES));
    let b = Block { header: BlockHeader { height, prev_hash }, hash };
    proof {
        lemma_be64_reencode(v@.subrange(0, 8));
        assert(spec_encode_block(b) =~= v@);
    }
    Ok(b)
}

/// Encoded form of a receipt: the digest of its transaction.
pub open spec fn spec_encode_receipt(r: Receipt) -> Seq<u8> {
    r.tx_hash@
}

/// Encodes a receipt for storage.
pub fn encode_receipt(r: &Receipt) -> (v: Vec<u8>)
    ensures
        v@ == spec_encode_receipt(*r),
        v@.len() == HASH_BYTES as int,
{
    proof {
        use_type_invariant(&r.tx_hash);
    }
    let mut v: Vec<u8> = Vec::new();
    push_all(&mut v, r.tx_hash.as_bytes());
    proof {
        assert(v@ =~= r.tx_hash@);
    }
    v
}

/// Decodes a stored receipt.
pub fn decode_receipt(v: &Vec<u8>) -> (r: Result<Receipt, StorageError>)
    ensures
        r is Ok <==> v@.len() == HASH_BYTES as int,
        r matches Ok(rc) ==> spec_encode_receipt(rc) == v@,
        r matches Err(e) ==> e is Codec,
{
    if v.len() != HASH_BYTES {
        return Err(StorageError::Codec);
    }
    Ok(Receipt { tx_hash: crate::types::Hash::from_exact(copy_all(v)) })
}

/// Encoded form of a signed transaction: its digest.
pub open spec fn spec_encode_transaction(t: SignedTransaction) -> Seq<u8> {
    t.tx_hash@
}

/// Encodes a signed transaction for storage.
pub fn encode_transaction(t: &SignedTransaction) -> (v: Vec<u8>)
    ensures
        v@ == spec_encode_transaction(*t),
        v@.len() == HASH_BYTES as int,
{
    proof {
        use_type_invariant(&t.tx_hash);
    }
    let mut v: Vec<u8> = Vec::new();
    push_all(&mut v, t.tx_hash.as_bytes());
    proof {
        assert(v@ =~= t.tx_hash@);
    }
    v
}

/// Decodes a stored signed transaction.
pub fn decode_transaction(v: &Vec<u8>) -> (r: Result<SignedTransaction, StorageError>)
    ensures
        r is Ok <==> v@.len() == HASH_BYTES as int,
        r matches Ok(t) ==> spec_encode_transaction(t) == v@,
        r matches Err(e) ==> e is Codec,
{
    if v.len() != HASH_BYTES {
        return Err(StorageError::Codec);
    }
    Ok(SignedTransaction { tx_hash: crate::types::Hash::from_exact(copy_all(v)) })
}

/// Encoded form of a proof: certified height, then the block digest.
pub open spec fn spec_encode_proof(p: Proof) -> Seq<u8> {
    be64(p.height) + p.block_hash@
}

/// Byte length of an encoded proof.
pub open spec fn proof_enc_len() -> int {
    8 + HASH_BYTES as int
}

/// Encodes a proof for storage.
pub fn encode_proof(p: &Proof) -> (v: Vec<u8>)
    ensures
        v@ == spec_encode_proof(*p),
        v@.len() == proof_enc_len(),
{
    proof {
        use_type_invariant(&p.block_hash);
    }
    let mut v: Vec<u8> = Vec::new();
    push_be64(&mut v, p.height);
    push_all(&mut v, p.block_hash.as_bytes());
    v
}

/// Decodes a stored proof.
pub fn decode_proof(v: &Vec<u8>) -> (r: Result<Proof, StorageError>)
    ensures
        r is Ok <==> v@.len() == proof_enc_len(),
        r matches Ok(p) ==> spec_encode_proof(p) == v@,
        r matches Err(e) ==> e is Codec,
{
    if v.len() != 8 + HASH_BYTES {
        return Err(StorageError::Codec);
    }
    let height = read_be64(v, 0);
    let block_hash = crate::types::Hash::from_exact(sub_bytes(v, 8, 8 + HASH_BYTES));
    let p = Proof { height, block_hash };
    proof {
        lemma_be64_reencode(v@.subrange(0, 8));
        assert(spec_encode_proof(p) =~= v@);
    }
    Ok(p)
}

/// A copy of the whole vector.
fn copy_all(v: &Vec<u8>) -> (r: Vec<u8>)
    ensures
        r@ == v@,
{
    crate::types::copy_bytes(v)
}

// ------------------------------------------------------------------
// Key encodings, one per schema.
// ------------------------------------------------------------------

/// Key of the block-by-height schema.
pub open spec fn spec_key_block_by_height(h: u64) -> Seq<u8> {
    be64(h)
}

/// Key of the block-by-digest schema.
pub open spec fn spec_key_block_by_hash(h: Seq<u8>) -> Seq<u8> {
    h
}

/// Key of the latest-block singleton.
pub open spec fn spec_key_latest_block() -> Seq<u8> {
    seq![0u8]
}

/// Key of the latest-proof singleton.
pub open spec fn spec_key_latest_proof() -> Seq<u8> {
    seq![0u8, 0u8]
}

/// Key of the receipt-by-transaction-digest schema.
pub open spec fn spec_key_receipt(h: Seq<u8>) -> Seq<u8> {
    h
}

/// Key of the transaction-by-digest schema.
pub open spec fn spec_key_transaction(h: Seq<u8>) -> Seq<u8> {
    h
}

/// Key of the consensus write-ahead-log singleton.
pub open spec fn spec_key_wal() -> Seq<u8> {
    seq![0u8]
}

/// Builds the block-by-height key.
pub fn key_block_by_height(h: u64) -> (v: Vec<u8>)
    ensures
        v@ == spec_key_block_by_height(h),
{
    let mut v: Vec<u8> = Vec::new();
    push_be64(&mut v, h);
    proof {
        assert(v@ =~= be64(h));
    }
    v
}

/// Builds the block-by-digest key.
pub fn key_block_by_hash(h: &crate::types::Hash) -> (v: Vec<u8>)
    ensures
        v@ == spec_key_block_by_hash(h@),
{
    h.duplicate().into_vec()
}

/// Builds the latest-block singleton key.
pub fn key_latest_block() -> (v: Vec<u8>)
    ensures
        v@ == spec_key_latest_block(),
{
    let mut v: Vec<u8> = Vec::new();
    v.push(0u8);
    proof {
        assert(v@ =~= spec_key_latest_block());
    }
    v
}

/// Builds the latest-proof singleton key.
pub fn key_latest_proof() -> (v: Vec<u8>)
    ensures
        v@ == spec_key_latest_proof(),
{
    let mut v: Vec<u8> = Vec::new();
    v.push(0u8);
    v.push(0u8);
    proof {
        assert(v@ =~= spec_key_latest_proof());
    }
    v
}

/// Builds the receipt-by-transaction-digest key.
pub fn key_receipt(h: &crate::types::Hash) -> (v: Vec<u8>)
    ensures
        v@ == spec_key_receipt(h@),
{
    h.duplicate().into_vec()
}

/// Builds the transaction-by-digest key.
pub fn key_transaction(h: &crate::types::Hash) -> (v: Vec<u8>)
    ensures
        v@ == spec_key_transaction(h@),
{
    h.duplicate().into_vec()
}

/// Builds the consensus write-ahead-log singleton key.
pub fn key_wal() -> (v: Vec<u8>)
    ensures
        v@ == spec_key_wal(),
{
    key_latest_block()
}

/// Round trip at the domain level: two blocks with one encoding agree in
/// every field, so decoding a stored block gives back exactly the block
/// that was stored.
pub proof fn lemma_encode_block_injective(b1: Block, b2: Block)
    requires
        spec_encode_block(b1) == spec_encode_block(b2),
        b1.header.prev_hash@.len() == HASH_BYTES as int,
        b1.hash@.len() == HASH_BYTES as int,
        b2.header.prev_hash@.len() == HASH_BYTES as int,
        b2.hash@.len() == HASH_BYTES as int,
    ensures
        b1.header.height == b2.header.height,
        b1.header.prev_hash@ == b2.header.prev_hash@,
        b1.hash@ == b2.hash@,
{
    let s = spec_encode_block(b1);
    assert(be64(b1.header.height) =~= s.subrange(0, 8));
    assert(be64(b2.header.height) =~= s.subrange(0, 8));
    lemma_be64_injective(b1.header.height, b2.header.height);
    assert(b1.header.prev_hash@ =~= s.subrange(8, 8 + HASH_BYTES as int));
    assert(b2.header.prev_hash@ =~= s.subrange(8, 8 + HASH_BYTES as int));
    assert(b1.hash@ =~= s.subrange(8 + HASH_BYTES as int, block_enc_len()));
    assert(b2.hash@ =~= s.subrange(8 + HASH_BYTES as int, block_enc_len()));
}

/// Round trip at the domain level: a receipt's encoding determines its
/// transaction digest.
pub proof fn lemma_encode_receipt_injective(r1: Receipt, r2: Receipt)
    requires
        spec_encode_receipt(r1) == spec_encode_receipt(r2),
    ensures
        r1.tx_hash@ == r2.tx_hash@,
{
}

/// Round trip at the domain level: a signed transaction's encoding
/// determines its digest.
pub proof fn lemma_encode_transaction_injective(t1: SignedTransaction, t2: SignedTransaction)
    requires
        spec_encode_transaction(t1) == spec_encode_transaction(t2),
    ensures
        t1.tx_hash@ == t2.tx_hash@,
{
}

/// Round trip at the domain level: two proofs with one encoding agree in
/// both fields.
pub proof fn lemma_encode_proof_injective(p1: Proof, p2: Proof)
    requires
        spec_encode_proof(p1) == spec_encode_proof(p2),
        p1.block_hash@.len() == HASH_BYTES as int,
        p2.block_hash@.len() == HASH_BYTES as int,
    ensures
        p1.height == p2.height,
        p1.block_hash@ == p2.block_hash@,
{
    let s = spec_encode_proof(p1);
    assert(be64(p1.height) =~= s.subrange(0, 8));
    assert(be64(p2.height) =~= s.subrange(0, 8));
    lemma_be64_injective(p1.height, p2.height);
    assert(p1.block_hash@ =~= s.subrange(8, proof_enc_len()));
    assert(p2.block_hash@ =~= s.subrange(8, proof_enc_len()));
}

/// The four schemas sharing the block category can never collide: their
/// encoded keys differ in length for every valid input.
pub proof fn lemma_block_schema_keys_disjoint(height: u64, digest: Seq<u8>)
    requires
        digest.len() == HASH_BYTES as int,
    ensures
        spec_key_block_by_height(height) != spec_key_block_by_hash(digest),
        spec_key_block_by_height(height) != spec_key_latest_block(),
        spec_key_block_by_height(height) != spec_key_latest_proof(),
        spec_key_block_by_hash(digest) != spec_key_latest_block(),
        spec_key_block_by_hash(digest) != spec_key_latest_proof(),
        spec_key_latest_block() != spec_key_latest_proof(),
{
    assert(spec_key_block_by_height(height).len() == 8);
    assert(spec_key_latest_block().len() == 1);
    assert(spec_key_latest_proof().len() == 2);
}

} // verus!
