//! A ledger record.
use crate::pow::{mined, unsolvable, PowError, ProofOfWork};
use crate::target::DIGEST_BITS;
use vstd::prelude::*;

verus! {

/// A record of the ledger: a payload committed to the previous record's
/// digest, sealed by a nonce whose digest meets the target.
#[derive(Debug, Clone)]
pub struct Block {
    /// Seconds since the epoch, taken when the record was created.
    pub timestamp: i64,
    /// The payload, opaque bytes.
    pub data: Vec<u8>,
    /// The previous record's digest; empty for the first record.
    pub prev_block_hash: Vec<u8>,
    /// The digest of the record's serialization with `nonce`.
    pub hash: Vec<u8>,
    /// The nonce found by mining.
    pub nonce: u64,
}

impl Block {
    /// Whether the record's nonce and digest are what mining it gives.
    pub open spec fn is_sealed(&self, difficulty_bits: u32) -> bool {
        mined(
            self.prev_block_hash@,
            self.data@,
            self.timestamp,
            difficulty_bits,
            self.nonce,
            self.hash@,
        )
    }

    /// Builds the record for `data` after `prev_block_hash` at `timestamp`
    /// and mines it under `difficulty_bits`.
    pub fn new(data: Vec<u8>, prev_block_hash: Vec<u8>, timestamp: i64, difficulty_bits: u32) -> (r:
        Result<Block, PowError>)
        ensures
            difficulty_bits > DIGEST_BITS ==> r == Err::<Block, PowError>(
                PowError::DifficultyOutOfRange,
            ),
            difficulty_bits <= DIGEST_BITS ==> match r {
                Ok(b) => {
                    &&& b.data@ == data@
                    &&& b.prev_block_hash@ == prev_block_hash@
                    &&& b.timestamp == timestamp
                    &&& b.is_sealed(difficulty_bits)
                },
                Err(e) => e == PowError::NonceSpaceExhausted && unsolvable(
                    prev_block_hash@,
                    data@,
                    timestamp,
                    difficulty_bits,
                ),
            },
    {
        let block = Block { timestamp, data, prev_block_hash, hash: Vec::new(), nonce: 0 };
        let pow = match ProofOfWork::new(block, difficulty_bits) {
            Ok(p) => p,
            Err(e) => return Err(e),
        };
        match pow.run() {
            Ok((nonce, hash)) => {
                let mut sealed = pow.block;
                sealed.hash = hash;
                sealed.nonce = nonce;
                Ok(sealed)
            },
            Err(e) => Err(e),
        }
    }
}

} // verus!
