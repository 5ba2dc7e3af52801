//! The ledger: an append-only sequence of sealed, hash-linked records.
use crate::block::Block;
use crate::pow::{unsolvable, valid_record, PowError};
use crate::target::DIGEST_BITS;
use vstd::prelude::*;
use vstd::slice::slice_to_vec;

verus! {

/// The payload of the first record: the ASCII bytes of `Genesis Block`.
pub open spec fn genesis_payload() -> Seq<u8> {
    seq![0x47, 0x65, 0x6e, 0x65, 0x73, 0x69, 0x73, 0x20, 0x42, 0x6c, 0x6f, 0x63, 0x6b]
}

fn genesis_payload_bytes() -> (r: Vec<u8>)
    ensures
        r@ == genesis_payload(),
{
    let r: Vec<u8> = vec![0x47, 0x65, 0x6e, 0x65, 0x73, 0x69, 0x73, 0x20, 0x42, 0x6c, 0x6f, 0x63, 0x6b];
    assert(r@ =~= genesis_payload());
    r
}

/// An ordered sequence of records mined under one difficulty.
pub struct Blockchain {
    blocks: Vec<Block>,
    difficulty_bits: u32,
}

impl View for Blockchain {
    type V = Seq<Block>;

    closed spec fn view(&self) -> Seq<Block> {
        self.blocks@
    }
}

impl Blockchain {
    /// The difficulty that every record of the ledger is mined under.
    pub closed spec fn difficulty(&self) -> u32 {
        self.difficulty_bits
    }

    /// The ledger's invariant: non-empty, the first record has no previous
    /// digest, every record is sealed, and each later record commits to the
    /// digest of the one before it.
    pub open spec fn wf(&self) -> bool {
        &&& self.difficulty() <= DIGEST_BITS
        &&& self@.len() > 0
        &&& self@[0].prev_block_hash@.len() == 0
        &&& forall|i: int| 0 <= i < self@.len() ==> #[trigger] self@[i].is_sealed(self.difficulty())
        &&& forall|i: int|
            0 < i < self@.len() ==> #[trigger] self@[i].prev_block_hash@ == self@[i - 1].hash@
    }

    /// A ledger seeded with its first record, created at `timestamp` and
    /// mined under `difficulty_bits`.
    pub fn new(difficulty_bits: u32, timestamp: i64) -> (r: Result<Blockchain, PowError>)
        ensures
            difficulty_bits > DIGEST_BITS ==> r == Err::<Blockchain, PowError>(
                PowError::DifficultyOutOfRange,
            ),
            difficulty_bits <= DIGEST_BITS ==> match r {
                Ok(c) => {
                    &&& c.wf()
                    &&& c.difficulty() == difficulty_bits
                    &&& c@.len() == 1
                    &&& c@[0].data@ == genesis_payload()
                    &&& c@[0].timestamp == timestamp
                },
                Err(e) => e == PowError::NonceSpaceExhausted && unsolvable(
                    Seq::empty(),
                    genesis_payload(),
                    timestamp,
                    difficulty_bits,
                ),
            },
    {
        if difficulty_bits > DIGEST_BITS {
            return Err(PowError::DifficultyOutOfRange);
        }
        let mut blockchain = Blockchain { blocks: Vec::new(), difficulty_bits };
        match blockchain.generate_genesis(timestamp) {
            Ok(()) => Ok(blockchain),
            Err(e) => Err(e),
        }
    }

    /// Mines the first record into an empty ledger.
    pub fn generate_genesis(&mut self, timestamp: i64) -> (r: Result<(), PowError>)
        requires
            old(self)@.len() == 0,
            old(self).difficulty() <= DIGEST_BITS,
        ensures
            final(self).difficulty() == old(self).difficulty(),
            match r {
                Ok(()) => {
                    &&& final(self).wf()
                    &&& final(self)@.len() == 1
                    &&& final(self)@[0].data@ == genesis_payload()
                    &&& final(self)@[0].timestamp == timestamp
                },
                Err(e) => {
                    &&& e == PowError::NonceSpaceExhausted
                    &&& final(self)@ == old(self)@
                    &&& unsolvable(
                        Seq::empty(),
                        genesis_payload(),
                        timestamp,
                        old(self).difficulty(),
                    )
                },
            },
    {
        let prev: Vec<u8> = Vec::new();
        proof {
            assert(prev@ =~= Seq::<u8>::empty());
        }
        let genesis_block = Block::new(
            genesis_payload_bytes(),
            prev,
            timestamp,
            self.difficulty_bits,
        );
        match genesis_block {
            Ok(b) => {
                self.blocks.push(b);
                Ok(())
            },
            Err(e) => Err(e),
        }
    }

    /// The digest of the last record, or empty for an empty ledger.
    pub fn get_prev_hash(&self) -> (r: Vec<u8>)
        ensures
            r@ == (if self@.len() == 0 {
                Seq::<u8>::empty()
            } else {
                self@.last().hash@
            }),
    {
        if !self.blocks.is_empty() {
            let last = self.blocks.len() - 1;
            slice_to_vec(self.blocks[last].hash.as_slice())
        } else {
            Vec::new()
        }
    }

    /// Mines a record for `data`, created at `timestamp`, after the last
    /// record, and appends it.
    pub fn add_block(&mut self, data: Vec<u8>, timestamp: i64) -> (r: Result<(), PowError>)
        requires
            old(self).wf(),
        ensures
            final(self).wf(),
            final(self).difficulty() == old(self).difficulty(),
            match r {
                Ok(()) => {
                    &&& final(self)@.len() == old(self)@.len() + 1
                    &&& final(self)@.drop_last() == old(self)@
                    &&& final(self)@.last().data@ == data@
                    &&& final(self)@.last().timestamp == timestamp
                    &&& final(self)@.last().prev_block_hash@ == old(self)@.last().hash@
                },
                Err(e) => {
                    &&& e == PowError::NonceSpaceExhausted
                    &&& final(self)@ == old(self)@
                    &&& unsolvable(
                        old(self)@.last().hash@,
                        data@,
                        timestamp,
                        old(self).difficulty(),
                    )
                },
            },
    {
        let prev_hash = self.get_prev_hash();
        let new_block = Block::new(data, prev_hash, timestamp, self.difficulty_bits);
        match new_block {
            Ok(b) => {
                self.blocks.push(b);
                assert(self@.drop_last() =~= old(self)@);
                Ok(())
            },
            Err(e) => Err(e),
        }
    }

    /// The records, first to last.
    pub fn blocks(&self) -> (r: &Vec<Block>)
        ensures
            r@ == self@,
    {
        &self.blocks
    }

    /// The difficulty that every record is mined under.
    pub fn difficulty_bits(&self) -> (r: u32)
        ensures
            r == self.difficulty(),
    {
        self.difficulty_bits
    }
}

/// In a well-formed ledger each record commits to the digest of the record
/// before it.
pub proof fn lemma_chain_linked(chain: Blockchain, i: int)
    requires
        chain.wf(),
        0 <= i,
        i + 1 < chain@.len(),
    ensures
        chain@[i + 1].prev_block_hash@ == chain@[i].hash@,
{
    assert(chain@[i + 1].prev_block_hash@ == chain@[(i + 1) - 1].hash@);
}

/// Every record of a well-formed ledger passes validation.
pub proof fn lemma_chain_records_validate(chain: Blockchain, i: int)
    requires
        chain.wf(),
        0 <= i < chain@.len(),
    ensures
        valid_record(chain@[i], chain.difficulty()),
{
    assert(chain@[i].is_sealed(chain.difficulty()));
}

/// The first record of a well-formed ledger has an empty previous digest.
pub proof fn lemma_genesis_has_no_previous(chain: Blockchain)
    requires
        chain.wf(),
    ensures
        chain@[0].prev_block_hash@ == Seq::<u8>::empty(),
{
}

} // verus!
