//! The consensus rules that a block is held to before and after execution.
use vstd::prelude::*;
use crate::engine_types::ConsensusError;
use crate::execution::BlockExecutionOutput;
use crate::payload_validator::{blob_hashes, collect_blob_hashes, fork_active, ChainSpec};
use crate::primitives::{SealedBlock, SealedHeader, Transaction};

verus! {

/// Blob gas that one blob consumes.
pub const DATA_GAS_PER_BLOB: u64 = 131072;

/// Most blob gas that one block may use.
pub const MAX_DATA_GAS_PER_BLOCK: u64 = 786432;

/// The first rule that a header `h` with `ommers` ommers breaks, if any.
pub open spec fn header_rules_error(chain: ChainSpec, h: SealedHeader, ommers: nat) -> Option<ConsensusError> {
    if h.difficulty != 0 {
        Some(ConsensusError::TheMergeDifficultyIsNotZero)
    } else if h.nonce != 0 {
        Some(ConsensusError::TheMergeNonceIsNotZero)
    } else if ommers != 0 {
        Some(ConsensusError::TheMergeOmmerRootIsNotEmpty)
    } else if h.gas_used > h.gas_limit {
        Some(ConsensusError::HeaderGasUsedExceedsGasLimit { gas_used: h.gas_used, gas_limit: h.gas_limit })
    } else if h.base_fee_per_gas is None {
        Some(ConsensusError::BaseFeeMissing)
    } else if fork_active(chain.cancun_time, h.timestamp) && (h.blob_gas_used is None || h.excess_blob_gas is None) {
        Some(ConsensusError::BlobGasUsedMissing)
    } else if fork_active(chain.cancun_time, h.timestamp) && h.parent_beacon_block_root is None {
        Some(ConsensusError::ParentBeaconBlockRootMissing)
    } else if h.blob_gas_used is Some && h.blob_gas_used->Some_0 > MAX_DATA_GAS_PER_BLOCK {
        Some(ConsensusError::BlobGasUsedExceedsMaxBlobGasPerBlock { blob_gas_used: h.blob_gas_used->Some_0 })
    } else {
        None
    }
}

/// The first rule that a block made of header `h`, `ommers` ommers, withdrawals
/// (when `has_withdrawals`) and transactions `body` breaks, if any.
pub open spec fn block_rules_error(
    chain: ChainSpec,
    h: SealedHeader,
    ommers: nat,
    has_withdrawals: bool,
    body: Seq<Transaction>,
) -> Option<ConsensusError> {
    if header_rules_error(chain, h, ommers) is Some {
        header_rules_error(chain, h, ommers)
    } else if fork_active(chain.shanghai_time, h.timestamp) && !has_withdrawals {
        Some(ConsensusError::WithdrawalsMissing)
    } else if fork_active(chain.cancun_time, h.timestamp) && h.blob_gas_used is Some
        && h.blob_gas_used->Some_0 as int != blob_hashes(body).len() * DATA_GAS_PER_BLOB {
        Some(ConsensusError::BlobGasUsedDiff {
            header_blob_gas_used: h.blob_gas_used->Some_0,
            expected_blob_gas_used: (blob_hashes(body).len() * DATA_GAS_PER_BLOB) as u128,
        })
    } else {
        None
    }
}

/// The first rule of the header that `b` breaks, if any.
pub open spec fn header_error(chain: ChainSpec, b: SealedBlock) -> Option<ConsensusError> {
    header_rules_error(chain, b.header, b.ommers@.len())
}

/// The first rule of the header and the body that `b` breaks, if any.
pub open spec fn block_error(chain: ChainSpec, b: SealedBlock) -> Option<ConsensusError> {
    block_rules_error(chain, b.header, b.ommers@.len(), b.withdrawals is Some, b.body@)
}

/// The gas that the receipts say the block used: the last cumulative figure.
pub open spec fn receipts_gas_used(output: BlockExecutionOutput) -> u64 {
    if output.receipts@.len() == 0 {
        0
    } else {
        output.receipts@.last().cumulative_gas_used
    }
}

/// The first rule that the outcome of executing `b` breaks, if any.
pub open spec fn post_execution_error(b: SealedBlock, output: BlockExecutionOutput) -> Option<ConsensusError> {
    if output.receipts@.len() != b.body@.len() {
        Some(ConsensusError::ReceiptCountMismatch)
    } else if receipts_gas_used(output) != b.header.gas_used {
        Some(ConsensusError::BlockGasUsed { got: receipts_gas_used(output), expected: b.header.gas_used })
    } else if output.state_root != b.header.state_root {
        Some(ConsensusError::StateRootMismatch { got: output.state_root, expected: b.header.state_root })
    } else {
        None
    }
}

/// Checks the rules of the header on its own.
pub fn validate_header(chain: &ChainSpec, block: &SealedBlock) -> (r: Result<(), ConsensusError>)
    ensures
        r matches Err(e) ==> header_error(*chain, *block) == Some(e),
        r is Ok <==> header_error(*chain, *block) is None,
{
    let h = &block.header;
    if h.difficulty != 0 {
        return Err(ConsensusError::TheMergeDifficultyIsNotZero);
    }
    if h.nonce != 0 {
        return Err(ConsensusError::TheMergeNonceIsNotZero);
    }
    if block.ommers.len() != 0 {
        return Err(ConsensusError::TheMergeOmmerRootIsNotEmpty);
    }
    if h.gas_used > h.gas_limit {
        return Err(ConsensusError::HeaderGasUsedExceedsGasLimit { gas_used: h.gas_used, gas_limit: h.gas_limit });
    }
    if h.base_fee_per_gas.is_none() {
        return Err(ConsensusError::BaseFeeMissing);
    }
    let cancun = chain.is_cancun_active_at_timestamp(h.timestamp);
    if cancun && (h.blob_gas_used.is_none() || h.excess_blob_gas.is_none()) {
        return Err(ConsensusError::BlobGasUsedMissing);
    }
    if cancun && h.parent_beacon_block_root.is_none() {
        return Err(ConsensusError::ParentBeaconBlockRootMissing);
    }
    match h.blob_gas_used {
        Some(g) => {
            if g > MAX_DATA_GAS_PER_BLOCK {
                return Err(ConsensusError::BlobGasUsedExceedsMaxBlobGasPerBlock { blob_gas_used: g });
            }
        },
        None => {},
    }
    Ok(())
}

/// Validate that the block satisfies the consensus rules that concern its header
/// and its body, before it is executed.
pub fn validate_block(chain: &ChainSpec, block: &SealedBlock) -> (r: Result<(), ConsensusError>)
    ensures
        r matches Err(e) ==> block_error(*chain, *block) == Some(e),
        r is Ok <==> block_error(*chain, *block) is None,
{
    validate_header(chain, block)?;
    if chain.is_shanghai_active_at_timestamp(block.header.timestamp) && block.withdrawals.is_none() {
        return Err(ConsensusError::WithdrawalsMissing);
    }
    if chain.is_cancun_active_at_timestamp(block.header.timestamp) {
        match block.header.blob_gas_used {
            Some(g) => {
                let count = collect_blob_hashes(&block.body).len();
                let expected: u128 = count as u128 * DATA_GAS_PER_BLOB as u128;
                if g as u128 != expected {
                    return Err(ConsensusError::BlobGasUsedDiff {
                        header_blob_gas_used: g,
                        expected_blob_gas_used: expected,
                    });
                }
            },
            None => {},
        }
    }
    Ok(())
}

/// Validate the outcome of executing `block`: one receipt per transaction, the
/// gas used, and the state root.
pub fn validate_block_post_execution(block: &SealedBlock, output: &BlockExecutionOutput) -> (r: Result<
    (),
    ConsensusError,
>)
    ensures
        r matches Err(e) ==> post_execution_error(*block, *output) == Some(e),
        r is Ok <==> post_execution_error(*block, *output) is None,
{
    if output.receipts.len() != block.body.len() {
        return Err(ConsensusError::ReceiptCountMismatch);
    }
    let n = output.receipts.len();
    let gas: u64 = if n == 0 { 0 } else { output.receipts[n - 1].cumulative_gas_used };
    if gas != block.header.gas_used {
        return Err(ConsensusError::BlockGasUsed { got: gas, expected: block.header.gas_used });
    }
    if output.state_root != block.header.state_root {
        return Err(ConsensusError::StateRootMismatch { got: output.state_root, expected: block.header.state_root });
    }
    Ok(())
}

} // verus!
