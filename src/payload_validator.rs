//! Turns an execution payload into a sealed block, checking that it is well formed.
use vstd::prelude::*;
use crate::engine_types::{CancunPayloadFields, ExecutionPayload, PayloadError};
use crate::primitives::{B256, SealedBlock, SealedHeader, Transaction};

verus! {

/// Longest extra data a header may carry, in bytes.
pub const MAXIMUM_EXTRA_DATA_SIZE: usize = 32;

/// The activation times of the forks that change what a payload holds.
#[derive(Clone, Copy, Debug, PartialEq, Eq, Structural)]
pub struct ChainSpec {
    pub shanghai_time: Option<u64>,
    pub cancun_time: Option<u64>,
}

/// Whether a fork that activates at `fork` is active at time `t`.
pub open spec fn fork_active(fork: Option<u64>, t: u64) -> bool {
    match fork {
        Some(f) => t >= f,
        None => false,
    }
}

impl ChainSpec {
    /// Whether Shanghai is active at `timestamp`.
    pub fn is_shanghai_active_at_timestamp(&self, timestamp: u64) -> (r: bool)
        ensures
            r == fork_active(self.shanghai_time, timestamp),
    {
        match self.shanghai_time {
            Some(f) => timestamp >= f,
            None => false,
        }
    }

    /// Whether Cancun is active at `timestamp`.
    pub fn is_cancun_active_at_timestamp(&self, timestamp: u64) -> (r: bool)
        ensures
            r == fork_active(self.cancun_time, timestamp),
    {
        match self.cancun_time {
            Some(f) => timestamp >= f,
            None => false,
        }
    }
}

/// The blob versioned hashes of `txs`, concatenated in order of inclusion.
pub open spec fn blob_hashes(txs: Seq<Transaction>) -> Seq<B256>
    decreases txs.len(),
{
    if txs.len() == 0 {
        Seq::empty()
    } else {
        blob_hashes(txs.drop_last()) + txs.last().blob_versioned_hashes@
    }
}

/// The first rule that the payload breaks before Shanghai's and the blob hashes' checks.
pub open spec fn withdrawal_and_blob_hash_error(
    chain: ChainSpec,
    p: ExecutionPayload,
    cancun: Option<CancunPayloadFields>,
) -> Option<PayloadError> {
    if fork_active(chain.shanghai_time, p.timestamp) && p.withdrawals is None {
        Some(PayloadError::PostShanghaiBlockWithoutWithdrawals)
    } else if !fork_active(chain.shanghai_time, p.timestamp) && p.withdrawals is Some {
        Some(PayloadError::PreShanghaiBlockWithWithdrawals)
    } else if cancun matches Some(c) && c.versioned_hashes@ != blob_hashes(p.transactions@) {
        Some(PayloadError::InvalidVersionedHashes)
    } else {
        None
    }
}

/// The first rule that the payload breaks, given the hash of the header it describes.
pub open spec fn payload_error(
    chain: ChainSpec,
    p: ExecutionPayload,
    cancun: Option<CancunPayloadFields>,
    header_hash: B256,
) -> Option<PayloadError> {
    if p.extra_data@.len() > MAXIMUM_EXTRA_DATA_SIZE {
        Some(PayloadError::ExtraData)
    } else if p.base_fee_per_gas is None {
        Some(PayloadError::BaseFee)
    } else if header_hash != p.block_hash {
        Some(PayloadError::BlockHash { execution: header_hash, consensus: p.block_hash })
    } else if fork_active(chain.cancun_time, p.timestamp) {
        if p.blob_gas_used is None || p.excess_blob_gas is None {
            Some(PayloadError::PostCancunBlockWithoutBlobGasFields)
        } else if cancun is None {
            Some(PayloadError::PostCancunWithoutCancunFields)
        } else {
            withdrawal_and_blob_hash_error(chain, p, cancun)
        }
    } else {
        if blob_hashes(p.transactions@).len() > 0 {
            Some(PayloadError::PreCancunBlockWithBlobTransactions)
        } else if p.blob_gas_used is Some || p.excess_blob_gas is Some {
            Some(PayloadError::PreCancunBlockWithBlobGasFields)
        } else if cancun is Some {
            Some(PayloadError::PreCancunWithCancunFields)
        } else {
            withdrawal_and_blob_hash_error(chain, p, cancun)
        }
    }
}

/// The sealed header that a payload describes.
pub open spec fn payload_header(
    p: ExecutionPayload,
    cancun: Option<CancunPayloadFields>,
    header_hash: B256,
) -> SealedHeader {
    SealedHeader {
        hash: header_hash,
        parent_hash: p.parent_hash,
        number: p.block_number,
        difficulty: 0,
        nonce: 0,
        state_root: p.state_root,
        receipts_root: p.receipts_root,
        gas_limit: p.gas_limit,
        gas_used: p.gas_used,
        timestamp: p.timestamp,
        base_fee_per_gas: p.base_fee_per_gas,
        blob_gas_used: p.blob_gas_used,
        excess_blob_gas: p.excess_blob_gas,
        parent_beacon_block_root: match cancun {
            Some(c) => Some(c.parent_beacon_block_root),
            None => None,
        },
    }
}

/// The blob versioned hashes of `txs`, concatenated in order of inclusion.
pub fn collect_blob_hashes(txs: &Vec<Transaction>) -> (r: Vec<B256>)
    ensures
        r@ == blob_hashes(txs@),
{
    let mut r: Vec<B256> = Vec::new();
    let mut i: usize = 0;
    while i < txs.len()
        invariant
            0 <= i <= txs@.len(),
            r@ == blob_hashes(txs@.take(i as int)),
        decreases txs@.len() - i,
    {
        let hashes = &txs[i].blob_versioned_hashes;
        let ghost before = r@;
        let mut j: usize = 0;
        while j < hashes.len()
            invariant
                0 <= j <= hashes@.len(),
                r@ == before + hashes@.take(j as int),
            decreases hashes@.len() - j,
        {
            r.push(hashes[j]);
            assert(hashes@.take(j as int + 1) == hashes@.take(j as int).push(hashes@[j as int]));
            j = j + 1;
        }
        assert(hashes@.take(j as int) == hashes@);
        assert(txs@.take(i as int + 1).drop_last() == txs@.take(i as int));
        i = i + 1;
    }
    assert(txs@.take(i as int) == txs@);
    r
}

/// Whether two hash lists are equal.
fn hashes_equal(a: &Vec<B256>, b: &Vec<B256>) -> (r: bool)
    ensures
        r <==> a@ == b@,
{
    if a.len() != b.len() {
        return false;
    }
    let mut i: usize = 0;
    while i < a.len()
        invariant
            0 <= i <= a@.len(),
            a@.len() == b@.len(),
            forall|j: int| 0 <= j < i ==> a@[j] == b@[j],
        decreases a@.len() - i,
    {
        if a[i] != b[i] {
            return false;
        }
        i = i + 1;
    }
    assert(a@ =~= b@);
    true
}

/// Checks the payload's withdrawals against Shanghai and its blob hashes against
/// the expected ones.
fn check_withdrawals_and_blob_hashes(
    chain: &ChainSpec,
    payload: &ExecutionPayload,
    cancun: &Option<CancunPayloadFields>,
) -> (r: Option<PayloadError>)
    ensures
        r == withdrawal_and_blob_hash_error(*chain, *payload, *cancun),
{
    let shanghai = chain.is_shanghai_active_at_timestamp(payload.timestamp);
    if shanghai && payload.withdrawals.is_none() {
        return Some(PayloadError::PostShanghaiBlockWithoutWithdrawals);
    }
    if !shanghai && payload.withdrawals.is_some() {
        return Some(PayloadError::PreShanghaiBlockWithWithdrawals);
    }
    match cancun {
        Some(c) => {
            let actual = collect_blob_hashes(&payload.transactions);
            if !hashes_equal(&c.versioned_hashes, &actual) {
                return Some(PayloadError::InvalidVersionedHashes);
            }
        },
        None => {},
    }
    None
}

/// Converts `payload` into the block it describes, `header_hash` being the hash of
/// its header: fails with the first rule of [`payload_error`] that the payload breaks.
pub fn ensure_well_formed_payload(
    chain: &ChainSpec,
    payload: ExecutionPayload,
    cancun_fields: Option<CancunPayloadFields>,
    header_hash: B256,
) -> (r: Result<SealedBlock, PayloadError>)
    ensures
        r matches Err(e) ==> payload_error(*chain, payload, cancun_fields, header_hash) == Some(e),
        r is Ok <==> payload_error(*chain, payload, cancun_fields, header_hash) is None,
        r matches Ok(b) ==> b.header == payload_header(payload, cancun_fields, header_hash)
            && b.body@ == payload.transactions@ && b.ommers@.len() == 0
            && b.withdrawals == payload.withdrawals,
{
    if payload.extra_data.len() > MAXIMUM_EXTRA_DATA_SIZE {
        return Err(PayloadError::ExtraData);
    }
    if payload.base_fee_per_gas.is_none() {
        return Err(PayloadError::BaseFee);
    }
    if header_hash != payload.block_hash {
        return Err(PayloadError::BlockHash { execution: header_hash, consensus: payload.block_hash });
    }
    if chain.is_cancun_active_at_timestamp(payload.timestamp) {
        if payload.blob_gas_used.is_none() || payload.excess_blob_gas.is_none() {
            return Err(PayloadError::PostCancunBlockWithoutBlobGasFields);
        }
        if cancun_fields.is_none() {
            return Err(PayloadError::PostCancunWithoutCancunFields);
        }
    } else {
        let actual = collect_blob_hashes(&payload.transactions);
        if actual.len() > 0 {
            return Err(PayloadError::PreCancunBlockWithBlobTransactions);
        }
        if payload.blob_gas_used.is_some() || payload.excess_blob_gas.is_some() {
            return Err(PayloadError::PreCancunBlockWithBlobGasFields);
        }
        if cancun_fields.is_some() {
            return Err(PayloadError::PreCancunWithCancunFields);
        }
    }
    match check_withdrawals_and_blob_hashes(chain, &payload, &cancun_fields) {
        Some(e) => {
            return Err(e);
        },
        None => {},
    }
    let parent_beacon_block_root = match &cancun_fields {
        Some(c) => Some(c.parent_beacon_block_root),
        None => None,
    };
    let header = SealedHeader {
        hash: header_hash,
        parent_hash: payload.parent_hash,
        number: payload.block_number,
        difficulty: 0,
        nonce: 0,
        state_root: payload.state_root,
        receipts_root: payload.receipts_root,
        gas_limit: payload.gas_limit,
        gas_used: payload.gas_used,
        timestamp: payload.timestamp,
        base_fee_per_gas: payload.base_fee_per_gas,
        blob_gas_used: payload.blob_gas_used,
        excess_blob_gas: payload.excess_blob_gas,
        parent_beacon_block_root,
    };
    Ok(SealedBlock {
        header,
        body: payload.transactions,
        ommers: Vec::new(),
        withdrawals: payload.withdrawals,
    })
}

} // verus!
