//! What executing a block yields, and the executed block that the tree stores.
use vstd::prelude::*;
use crate::primitives::{Address, B256, BlockNumber, SealedBlock, SealedBlockWithSenders};

verus! {

/// The state of an account.
#[derive(Clone, Copy, Debug, PartialEq, Eq, Structural)]
pub struct Account {
    pub nonce: u64,
    pub balance: u128,
    pub code_hash: B256,
}

/// The state that a block left an account in; `None` when the block destroyed it.
#[derive(Clone, Copy, Debug, PartialEq, Eq, Structural)]
pub struct AccountChange {
    pub address: Address,
    pub info: Option<Account>,
}

/// The value that a block left in a storage slot.
#[derive(Clone, Copy, Debug, PartialEq, Eq, Structural)]
pub struct StorageChange {
    pub address: Address,
    pub slot: B256,
    pub value: B256,
}

/// The receipt of one transaction.
#[derive(Clone, Copy, Debug, PartialEq, Eq, Structural)]
pub struct Receipt {
    pub success: bool,
    pub cumulative_gas_used: u64,
}

/// What the executor hands back for one block: the state diff, the receipts, the
/// execution-layer requests, and the state root computed over the post-state.
#[derive(Clone, Debug)]
pub struct BlockExecutionOutput {
    pub account_changes: Vec<AccountChange>,
    pub storage_changes: Vec<StorageChange>,
    pub receipts: Vec<Receipt>,
    pub requests: Vec<B256>,
    pub state_root: B256,
}

/// The result of executing one block, as the tree keeps it.
#[derive(Clone, Debug)]
pub struct ExecutionOutcome {
    pub account_changes: Vec<AccountChange>,
    pub storage_changes: Vec<StorageChange>,
    pub receipts: Vec<Receipt>,
    pub first_block: BlockNumber,
    pub requests: Vec<B256>,
}

/// A block, its senders and the outcome of executing it, as stored in memory.
#[derive(Clone, Debug)]
pub struct ExecutedBlock {
    pub block: SealedBlock,
    pub senders: Vec<Address>,
    pub execution_output: ExecutionOutcome,
}

impl ExecutedBlock {
    pub open spec fn spec_hash(&self) -> B256 {
        self.block.header.hash
    }

    pub open spec fn spec_number(&self) -> BlockNumber {
        self.block.header.number
    }

    /// Pairs an executed block with what its execution yielded.
    pub fn new(block: SealedBlockWithSenders, output: BlockExecutionOutput) -> (r: ExecutedBlock)
        ensures
            r.block == block.block,
            r.senders@ == block.senders@,
            r.execution_output.account_changes@ == output.account_changes@,
            r.execution_output.storage_changes@ == output.storage_changes@,
            r.execution_output.receipts@ == output.receipts@,
            r.execution_output.requests@ == output.requests@,
            r.execution_output.first_block == block.block.header.number,
    {
        let number = block.block.header.number;
        ExecutedBlock {
            block: block.block,
            senders: block.senders,
            execution_output: ExecutionOutcome {
                account_changes: output.account_changes,
                storage_changes: output.storage_changes,
                receipts: output.receipts,
                first_block: number,
                requests: output.requests,
            },
        }
    }

    /// Returns a reference to the executed block.
    pub fn block(&self) -> (r: &SealedBlock)
        ensures
            *r == self.block,
    {
        &self.block
    }

    /// Returns a reference to the block's senders.
    pub fn senders(&self) -> (r: &Vec<Address>)
        ensures
            *r == self.senders,
    {
        &self.senders
    }

    /// Returns a reference to the block's execution outcome.
    pub fn execution_outcome(&self) -> (r: &ExecutionOutcome)
        ensures
            *r == self.execution_output,
    {
        &self.execution_output
    }
}

} // verus!
