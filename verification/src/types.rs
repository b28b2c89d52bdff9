//! Domain entities that cross the storage boundary, and the byte helpers
//! they share. Every key and value that reaches an adapter is produced from
//! these types by the codec.

use vstd::prelude::*;

verus! {

/// Number of bytes in a digest.
pub const HASH_BYTES: usize = 32;

/// Compares two byte vectors element by element.
pub fn bytes_eq(a: &Vec<u8>, b: &Vec<u8>) -> (r: bool)
    ensures
        r == (a@ == b@),
{
    if a.len() != b.len() {
        return false;
    }
    let mut i: usize = 0;
    while i < a.len()
        invariant
            i <= a@.len(),
            a@.len() == b@.len(),
            forall|j: int| 0 <= j < i ==> a@[j] == b@[j],
        decreases a@.len() - i,
    {
        if a[i] != b[i] {
            return false;
        }
        i += 1;
    }
    proof {
        assert(a@ =~= b@);
    }
    true
}

/// Copies a byte vector.
pub fn copy_bytes(src: &Vec<u8>) -> (r: Vec<u8>)
    ensures
        r@ == src@,
{
    let mut r: Vec<u8> = Vec::new();
    let mut i: usize = 0;
    while i < src.len()
        invariant
            i <= src@.len(),
            r@ == src@.take(i as int),
        decreases src@.len() - i,
    {
        r.push(src[i]);
        i += 1;
        proof {
            assert(r@ =~= src@.take(i as int));
        }
    }
    proof {
        assert(src@.take(src@.len() as int) =~= src@);
    }
    r
}

/// A fixed-length digest identifying a block or a transaction. The storage
/// core treats it as an opaque 32-byte value; producing it from entity
/// contents is the domain layer's business.
#[derive(Debug)]
pub struct Hash {
    bytes: Vec<u8>,
}

impl Clone for Hash {
    fn clone(&self) -> (h: Hash)
        ensures
            h@ == self@,
    {
        self.duplicate()
    }
}

impl View for Hash {
    type V = Seq<u8>;

    closed spec fn view(&self) -> Seq<u8> {
        self.bytes@
    }
}

impl Hash {
    #[verifier::type_invariant]
    pub open spec fn wf(self) -> bool {
        self@.len() == HASH_BYTES as int
    }

    /// Wraps exactly [`HASH_BYTES`] bytes as a digest.
    pub fn from_bytes(bytes: Vec<u8>) -> (r: Result<Hash, crate::errors::StorageError>)
        ensures
            r is Ok <==> bytes@.len() == HASH_BYTES as int,
            r matches Ok(h) ==> h@ == bytes@,
            r matches Err(e) ==> e is Codec,
    {
        if bytes.len() == HASH_BYTES {
            Ok(Hash { bytes })
        } else {
            Err(crate::errors::StorageError::Codec)
        }
    }

    /// Wraps bytes already known to have the digest length.
    pub(crate) fn from_exact(bytes: Vec<u8>) -> (h: Hash)
        requires
            bytes@.len() == HASH_BYTES as int,
        ensures
            h@ == bytes@,
    {
        Hash { bytes }
    }

    /// The digest's bytes, by value.
    pub fn into_vec(self) -> (b: Vec<u8>)
        ensures
            b@ == self@,
    {
        self.bytes
    }

    /// The digest's bytes.
    pub fn as_bytes(&self) -> (b: &Vec<u8>)
        ensures
            b@ == self@,
    {
        &self.bytes
    }

    /// A copy of this digest.
    pub fn duplicate(&self) -> (h: Hash)
        ensures
            h@ == self@,
    {
        proof {
            use_type_invariant(self);
        }
        Hash { bytes: copy_bytes(&self.bytes) }
    }
}

impl PartialEq for Hash {
    fn eq(&self, other: &Hash) -> (r: bool) {
        bytes_eq(&self.bytes, &other.bytes)
    }
}

impl Eq for Hash {}

impl vstd::std_specs::cmp::PartialEqSpecImpl for Hash {
    open spec fn obeys_eq_spec() -> bool {
        true
    }

    open spec fn eq_spec(&self, other: &Hash) -> bool {
        self@ == other@
    }
}

/// The header of a block: the part the storage scenarios read back.
#[derive(Debug, Clone)]
pub struct BlockHeader {
    /// The block's position in the chain.
    pub height: u64,
    /// Digest of the previous block.
    pub prev_hash: Hash,
}

/// A block, carrying the digest under which it is indexed.
#[derive(Debug, Clone)]
pub struct Block {
    pub header: BlockHeader,
    /// The digest the domain layer computed for this block.
    pub hash: Hash,
}

/// The receipt left by executing one transaction.
#[derive(Debug, Clone)]
pub struct Receipt {
    /// Digest of the transaction this receipt belongs to.
    pub tx_hash: Hash,
}

/// A transaction together with its signature, keyed by its digest.
#[derive(Debug, Clone)]
pub struct SignedTransaction {
    /// Digest of the transaction.
    pub tx_hash: Hash,
}

/// The latest finality certificate of the chain, a singleton record.
#[derive(Debug, Clone)]
pub struct Proof {
    /// Height of the block the proof certifies.
    pub height: u64,
    /// Digest of the block the proof certifies.
    pub block_hash: Hash,
}

} // verus!
