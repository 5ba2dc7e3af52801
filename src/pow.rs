//! The proof-of-work engine: nonce search and independent validation.
use crate::block::Block;
use crate::digest::{sha256, sha256_of};
use crate::encoding::{serialize, serialize_record};
use crate::target::{below_target, meets_target, DIGEST_BITS, DIGEST_LEN};
use vstd::prelude::*;

verus! {

/// Why a record could not be sealed.
#[derive(Debug, Clone, Copy, PartialEq, Eq, Structural)]
pub enum PowError {
    /// The difficulty exceeds the digest's bit width.
    DifficultyOutOfRange,
    /// No nonce of the 64-bit range meets the target.
    NonceSpaceExhausted,
}

/// The digest of a candidate record with the given nonce.
pub open spec fn candidate_digest(
    previous_digest: Seq<u8>,
    payload: Seq<u8>,
    timestamp: i64,
    difficulty_bits: u32,
    nonce: u64,
) -> Seq<u8> {
    sha256_of(serialize(previous_digest, payload, timestamp, difficulty_bits, nonce))
}

/// Whether `nonce` solves the puzzle for a candidate record.
pub open spec fn solves(
    previous_digest: Seq<u8>,
    payload: Seq<u8>,
    timestamp: i64,
    difficulty_bits: u32,
    nonce: u64,
) -> bool {
    below_target(
        candidate_digest(previous_digest, payload, timestamp, difficulty_bits, nonce),
        difficulty_bits as nat,
    )
}

/// `nonce` is the least solution, and `digest` the digest it gives: the
/// outcome of mining a candidate record.
pub open spec fn mined(
    previous_digest: Seq<u8>,
    payload: Seq<u8>,
    timestamp: i64,
    difficulty_bits: u32,
    nonce: u64,
    digest: Seq<u8>,
) -> bool {
    &&& solves(previous_digest, payload, timestamp, difficulty_bits, nonce)
    &&& forall|m: u64|
        m < nonce ==> !#[trigger] solves(previous_digest, payload, timestamp, difficulty_bits, m)
    &&& digest == candidate_digest(previous_digest, payload, timestamp, difficulty_bits, nonce)
}

/// No nonce of the 64-bit range solves the puzzle for a candidate record.
pub open spec fn unsolvable(
    previous_digest: Seq<u8>,
    payload: Seq<u8>,
    timestamp: i64,
    difficulty_bits: u32,
) -> bool {
    forall|m: u64| !#[trigger] solves(previous_digest, payload, timestamp, difficulty_bits, m)
}

/// Whether a record's stored nonce solves the puzzle, recomputing its digest.
pub open spec fn valid_record(block: Block, difficulty_bits: u32) -> bool {
    solves(block.prev_block_hash@, block.data@, block.timestamp, difficulty_bits, block.nonce)
}

/// A puzzle instance: one candidate record under one difficulty.
pub struct ProofOfWork {
    pub block: Block,
    pub difficulty_bits: u32,
}

impl ProofOfWork {
    /// Sets up the puzzle for `block`; a difficulty above the digest's bit
    /// width is rejected.
    pub fn new(block: Block, difficulty_bits: u32) -> (r: Result<ProofOfWork, PowError>)
        ensures
            r is Ok <==> difficulty_bits <= DIGEST_BITS,
            r matches Ok(p) ==> p.block == block && p.difficulty_bits == difficulty_bits,
            r matches Err(e) ==> e == PowError::DifficultyOutOfRange,
    {
        if difficulty_bits > DIGEST_BITS {
            Err(PowError::DifficultyOutOfRange)
        } else {
            Ok(ProofOfWork { block, difficulty_bits })
        }
    }

    /// The canonical serialization of the candidate record with `nonce`.
    pub fn prepare_data(&self, nonce: u64) -> (r: Vec<u8>)
        ensures
            r@ == serialize(
                self.block.prev_block_hash@,
                self.block.data@,
                self.block.timestamp,
                self.difficulty_bits,
                nonce,
            ),
    {
        serialize_record(
            self.block.prev_block_hash.as_slice(),
            self.block.data.as_slice(),
            self.block.timestamp,
            self.difficulty_bits,
            nonce,
        )
    }

    /// Searches the nonces `from..=to` upward for the first whose digest
    /// meets the target. A caller that needs to stop early, or to share the
    /// search among workers, hands out the range in pieces.
    pub fn search_range(&self, from: u64, to: u64) -> (r: Option<(u64, Vec<u8>)>)
        requires
            self.difficulty_bits <= DIGEST_BITS,
        ensures
            r matches Some((n, h)) ==> {
                &&& from <= n <= to
                &&& solves(
                    self.block.prev_block_hash@,
                    self.block.data@,
                    self.block.timestamp,
                    self.difficulty_bits,
                    n,
                )
                &&& forall|m: u64|
                    from <= m < n ==> !#[trigger] solves(
                        self.block.prev_block_hash@,
                        self.block.data@,
                        self.block.timestamp,
                        self.difficulty_bits,
                        m,
                    )
                &&& h@ == candidate_digest(
                    self.block.prev_block_hash@,
                    self.block.data@,
                    self.block.timestamp,
                    self.difficulty_bits,
                    n,
                )
            },
            r is None ==> forall|m: u64|
                from <= m <= to ==> !#[trigger] solves(
                    self.block.prev_block_hash@,
                    self.block.data@,
                    self.block.timestamp,
                    self.difficulty_bits,
                    m,
                ),
    {
        let ghost prev = self.block.prev_block_hash@;
        let ghost payload = self.block.data@;
        let ghost ts = self.block.timestamp;
        let ghost bits = self.difficulty_bits;
        if from > to {
            return None;
        }
        let mut nonce: u64 = from;
        loop
            invariant
                bits == self.difficulty_bits,
                bits <= DIGEST_BITS,
                prev == self.block.prev_block_hash@,
                payload == self.block.data@,
                ts == self.block.timestamp,
                from <= nonce <= to,
                forall|m: u64| from <= m < nonce ==> !#[trigger] solves(prev, payload, ts, bits, m),
            decreases to - nonce,
        {
            let hash = self.recompute_digest(nonce);
            if meets_target(hash.as_slice(), self.difficulty_bits) {
                return Some((nonce, hash));
            }
            if nonce == to {
                return None;
            }
            nonce = nonce + 1;
        }
    }

    /// Searches nonces upward from zero for the first whose digest meets
    /// the target, returning it with that digest.
    pub fn run(&self) -> (r: Result<(u64, Vec<u8>), PowError>)
        requires
            self.difficulty_bits <= DIGEST_BITS,
        ensures
            r matches Ok((n, h)) ==> mined(
                self.block.prev_block_hash@,
                self.block.data@,
                self.block.timestamp,
                self.difficulty_bits,
                n,
                h@,
            ),
            r matches Err(e) ==> e == PowError::NonceSpaceExhausted && unsolvable(
                self.block.prev_block_hash@,
                self.block.data@,
                self.block.timestamp,
                self.difficulty_bits,
            ),
    {
        match self.search_range(0, u64::MAX) {
            Some(found) => Ok(found),
            None => Err(PowError::NonceSpaceExhausted),
        }
    }

    /// The digest of the candidate record with `nonce`.
    pub fn recompute_digest(&self, nonce: u64) -> (r: Vec<u8>)
        ensures
            r@ == candidate_digest(
                self.block.prev_block_hash@,
                self.block.data@,
                self.block.timestamp,
                self.difficulty_bits,
                nonce,
            ),
            r@.len() == DIGEST_LEN,
    {
        let data = self.prepare_data(nonce);
        sha256(data.as_slice())
    }

    /// Re-serializes the record with its stored nonce, re-hashes it, and
    /// tests the digest against the target; the stored digest is not trusted.
    pub fn validate(&self) -> (r: bool)
        requires
            self.difficulty_bits <= DIGEST_BITS,
        ensures
            r == valid_record(self.block, self.difficulty_bits),
    {
        let hash = self.recompute_digest(self.block.nonce);
        meets_target(hash.as_slice(), self.difficulty_bits)
    }
}

/// A record sealed by mining passes validation.
pub proof fn lemma_mined_record_validates(block: Block, difficulty_bits: u32)
    requires
        mined(
            block.prev_block_hash@,
            block.data@,
            block.timestamp,
            difficulty_bits,
            block.nonce,
            block.hash@,
        ),
    ensures
        valid_record(block, difficulty_bits),
{
}

/// Re-serializing and re-hashing a mined record with its stored nonce gives
/// back its stored digest.
pub proof fn lemma_stored_digest_reproduced(block: Block, difficulty_bits: u32)
    requires
        mined(
            block.prev_block_hash@,
            block.data@,
            block.timestamp,
            difficulty_bits,
            block.nonce,
            block.hash@,
        ),
    ensures
        candidate_digest(
            block.prev_block_hash@,
            block.data@,
            block.timestamp,
            difficulty_bits,
            block.nonce,
        ) == block.hash@,
{
}

} // verus!
