//! Plain-value model of the chain data that the engine tree handles.
use vstd::prelude::*;

verus! {

/// A 256-bit hash, held as its high and low 128-bit halves.
#[derive(Clone, Copy, Debug, PartialEq, Eq, Structural, Hash)]
pub struct B256 {
    pub hi: u128,
    pub lo: u128,
}

/// A 160-bit account address, held as its high 32 and low 128 bits.
#[derive(Clone, Copy, Debug, PartialEq, Eq, Structural, Hash)]
pub struct Address {
    pub hi: u32,
    pub lo: u128,
}

/// Height of a block.
pub type BlockNumber = u64;

impl B256 {
    pub open spec fn spec_zero() -> B256 {
        B256 { hi: 0, lo: 0 }
    }

    /// The all-zero hash.
    pub fn zero() -> (r: B256)
        ensures
            r == B256::spec_zero(),
    {
        B256 { hi: 0, lo: 0 }
    }

    /// A hash whose low 64 bits are `n` and whose other bits are zero.
    pub fn from_low_u64(n: u64) -> (r: B256)
        ensures
            r == (B256 { hi: 0, lo: n as u128 }),
    {
        B256 { hi: 0, lo: n as u128 }
    }

    /// Whether every bit of the hash is zero.
    pub fn is_zero(&self) -> (r: bool)
        ensures
            r <==> *self == B256::spec_zero(),
    {
        self.hi == 0 && self.lo == 0
    }
}

impl Address {
    /// An address whose low 64 bits are `n` and whose other bits are zero.
    pub fn from_low_u64(n: u64) -> (r: Address)
        ensures
            r == (Address { hi: 0, lo: n as u128 }),
    {
        Address { hi: 0, lo: n as u128 }
    }
}

/// A block's hash and number.
#[derive(Clone, Copy, Debug, PartialEq, Eq, Structural)]
pub struct BlockNumHash {
    pub hash: B256,
    pub number: BlockNumber,
}

/// A block header together with its hash (the Keccak of its RLP encoding).
#[derive(Clone, Copy, Debug, PartialEq, Eq, Structural)]
pub struct SealedHeader {
    pub hash: B256,
    pub parent_hash: B256,
    pub number: BlockNumber,
    pub difficulty: u128,
    pub nonce: u64,
    pub state_root: B256,
    pub receipts_root: B256,
    pub gas_limit: u64,
    pub gas_used: u64,
    pub timestamp: u64,
    pub base_fee_per_gas: Option<u64>,
    pub blob_gas_used: Option<u64>,
    pub excess_blob_gas: Option<u64>,
    pub parent_beacon_block_root: Option<B256>,
}

impl SealedHeader {
    /// Whether the header has zero difficulty, as every proof-of-stake header has.
    pub fn is_zero_difficulty(&self) -> (r: bool)
        ensures
            r <==> self.difficulty == 0,
    {
        self.difficulty == 0
    }
}

/// A signed transaction, with the signer that its signature recovers to, if any.
#[derive(Clone, Debug)]
pub struct Transaction {
    pub hash: B256,
    pub signer: Option<Address>,
    pub gas_limit: u64,
    /// Versioned hashes of the blobs that a blob transaction carries; empty for other kinds.
    pub blob_versioned_hashes: Vec<B256>,
}

/// A withdrawal from the beacon chain.
#[derive(Clone, Copy, Debug, PartialEq, Eq, Structural)]
pub struct Withdrawal {
    pub index: u64,
    pub validator_index: u64,
    pub address: Address,
    pub amount: u64,
}

/// A block whose header hash has been computed.
#[derive(Clone, Debug)]
pub struct SealedBlock {
    pub header: SealedHeader,
    pub body: Vec<Transaction>,
    pub ommers: Vec<SealedHeader>,
    pub withdrawals: Option<Vec<Withdrawal>>,
}

impl SealedBlock {
    pub open spec fn spec_hash(&self) -> B256 {
        self.header.hash
    }

    /// The block's hash.
    pub fn hash(&self) -> (r: B256)
        ensures
            r == self.spec_hash(),
    {
        self.header.hash
    }
}

/// A sealed block with the recovered sender of each of its transactions.
#[derive(Clone, Debug)]
pub struct SealedBlockWithSenders {
    pub block: SealedBlock,
    pub senders: Vec<Address>,
}

impl SealedBlockWithSenders {
    /// One sender per transaction.
    pub open spec fn wf(&self) -> bool {
        self.senders@.len() == self.block.body@.len()
    }

    pub open spec fn spec_hash(&self) -> B256 {
        self.block.header.hash
    }

    /// The block's hash.
    pub fn hash(&self) -> (r: B256)
        ensures
            r == self.spec_hash(),
    {
        self.block.header.hash
    }
}

/// The signers of the transactions of `body`, each one present.
pub open spec fn recovered_senders(body: Seq<Transaction>) -> Option<Seq<Address>>
    decreases body.len(),
{
    if body.len() == 0 {
        Some(Seq::empty())
    } else {
        match (recovered_senders(body.drop_last()), body.last().signer) {
            (Some(s), Some(a)) => Some(s.push(a)),
            _ => None,
        }
    }
}

impl SealedBlock {
    /// Pairs the block with the signers of its transactions; hands the block back
    /// when a transaction's signature recovers to no signer.
    pub fn try_seal_with_senders(self) -> (r: Result<SealedBlockWithSenders, SealedBlock>)
        ensures
            recovered_senders(self.body@) is None <==> r is Err,
            r matches Err(b) ==> b == self,
            r matches Ok(b) ==> b.block == self && b.wf()
                && Some(b.senders@) == recovered_senders(self.body@),
    {
        let mut senders: Vec<Address> = Vec::new();
        let mut i: usize = 0;
        while i < self.body.len()
            invariant
                0 <= i <= self.body@.len(),
                recovered_senders(self.body@.take(i as int)) == Some(senders@),
                senders@.len() == i,
            decreases self.body@.len() - i,
        {
            assert(self.body@.take(i as int + 1).drop_last() == self.body@.take(i as int));
            match self.body[i].signer {
                Some(a) => senders.push(a),
                None => {
                    proof { lemma_senders_none_extends(self.body@, i as int + 1); }
                    return Err(self);
                },
            }
            i = i + 1;
        }
        assert(self.body@.take(i as int) == self.body@);
        Ok(SealedBlockWithSenders { block: self, senders })
    }
}

/// Once a prefix has a transaction without a signer, so has every longer prefix.
proof fn lemma_senders_none_extends(body: Seq<Transaction>, k: int)
    requires
        0 <= k <= body.len(),
        recovered_senders(body.take(k)) is None,
    ensures
        recovered_senders(body) is None,
    decreases body.len() - k,
{
    if k < body.len() {
        assert(body.take(k + 1).drop_last() == body.take(k));
        lemma_senders_none_extends(body, k + 1);
    } else {
        assert(body.take(k) == body);
    }
}

} // verus!
