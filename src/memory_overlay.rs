//! A read-only view of state that stacks executed in-memory blocks over a
//! persisted snapshot.
use vstd::prelude::*;
use crate::execution::{Account, AccountChange, ExecutedBlock, StorageChange};
use crate::primitives::{Address, B256, BlockNumHash, BlockNumber};
use crate::provider::{
    copy_vec, find_account_change, find_storage_change, last_account_change, last_storage_change,
    snapshot_account, snapshot_storage, StateSnapshot,
};

verus! {

/// The state changes of one executed block.
#[derive(Clone, Debug)]
pub struct BlockState {
    pub hash: B256,
    pub number: BlockNumber,
    pub account_changes: Vec<AccountChange>,
    pub storage_changes: Vec<StorageChange>,
}

/// Whether `s` holds the state changes of executed block `e`.
pub open spec fn state_of(s: BlockState, e: ExecutedBlock) -> bool {
    s.hash == e.spec_hash() && s.number == e.spec_number()
        && s.account_changes@ == e.execution_output.account_changes@
        && s.storage_changes@ == e.execution_output.storage_changes@
}

impl BlockState {
    /// The state changes of `e`.
    pub fn of(e: &ExecutedBlock) -> (r: BlockState)
        ensures
            state_of(r, *e),
    {
        BlockState {
            hash: e.block.header.hash,
            number: e.block.header.number,
            account_changes: copy_vec(&e.execution_output.account_changes),
            storage_changes: copy_vec(&e.execution_output.storage_changes),
        }
    }
}

/// The newest change to account `a` in `blocks` (oldest first), if any block touches it.
pub open spec fn overlay_account(blocks: Seq<BlockState>, a: Address) -> Option<Option<Account>>
    decreases blocks.len(),
{
    if blocks.len() == 0 {
        None
    } else {
        match last_account_change(blocks.last().account_changes@, a) {
            Some(info) => Some(info),
            None => overlay_account(blocks.drop_last(), a),
        }
    }
}

/// The newest value written to a slot in `blocks` (oldest first), if any block writes it.
pub open spec fn overlay_storage(blocks: Seq<BlockState>, a: Address, slot: B256) -> Option<B256>
    decreases blocks.len(),
{
    if blocks.len() == 0 {
        None
    } else {
        match last_storage_change(blocks.last().storage_changes@, a, slot) {
            Some(v) => Some(v),
            None => overlay_storage(blocks.drop_last(), a, slot),
        }
    }
}

/// The hash of the newest block at height `n` in `blocks` (oldest first), if any.
pub open spec fn overlay_block_hash(blocks: Seq<BlockState>, n: BlockNumber) -> Option<B256>
    decreases blocks.len(),
{
    if blocks.len() == 0 {
        None
    } else if blocks.last().number == n {
        Some(blocks.last().hash)
    } else {
        overlay_block_hash(blocks.drop_last(), n)
    }
}

/// The hash of the last block at height `n` in `s`, if any.
pub open spec fn persisted_block_hash(s: Seq<BlockNumHash>, n: BlockNumber) -> Option<B256>
    decreases s.len(),
{
    if s.len() == 0 {
        None
    } else if s.last().number == n {
        Some(s.last().hash)
    } else {
        persisted_block_hash(s.drop_last(), n)
    }
}

/// State provider that reads the in-memory blocks, newest first, and falls back
/// to the persisted snapshot below them.
#[derive(Debug)]
pub struct MemoryOverlayStateProvider {
    /// The in-memory blocks, oldest first.
    pub in_memory: Vec<BlockState>,
    /// The state after the parent of the oldest in-memory block.
    pub historical: StateSnapshot,
    /// The hash and number of each persisted block.
    pub historical_hashes: Vec<BlockNumHash>,
}

impl MemoryOverlayStateProvider {
    /// The account at `a` as this view reads it.
    pub open spec fn spec_account(&self, a: Address) -> Option<Account> {
        match overlay_account(self.in_memory@, a) {
            Some(info) => info,
            None => snapshot_account(self.historical, a),
        }
    }

    /// The value of a slot as this view reads it.
    pub open spec fn spec_storage(&self, a: Address, slot: B256) -> B256 {
        match overlay_storage(self.in_memory@, a, slot) {
            Some(v) => v,
            None => snapshot_storage(self.historical, a, slot),
        }
    }

    /// The hash of the block at height `n` as this view reads it.
    pub open spec fn spec_block_hash(&self, n: BlockNumber) -> Option<B256> {
        match overlay_block_hash(self.in_memory@, n) {
            Some(h) => Some(h),
            None => persisted_block_hash(self.historical_hashes@, n),
        }
    }

    /// Create a new memory overlay state provider.
    pub fn new(
        in_memory: Vec<BlockState>,
        historical: StateSnapshot,
        historical_hashes: Vec<BlockNumHash>,
    ) -> (r: MemoryOverlayStateProvider)
        ensures
            r.in_memory@ == in_memory@,
            r.historical == historical,
            r.historical_hashes@ == historical_hashes@,
    {
        MemoryOverlayStateProvider { in_memory, historical, historical_hashes }
    }

    /// The account at `address`: the newest in-memory change to it, else the
    /// persisted one; `None` when the account does not exist or was destroyed.
    pub fn account(&self, address: Address) -> (r: Option<Account>)
        ensures
            r == self.spec_account(address),
    {
        let mut i: usize = self.in_memory.len();
        assert(self.in_memory@.take(i as int) == self.in_memory@);
        while i > 0
            invariant
                i <= self.in_memory@.len(),
                overlay_account(self.in_memory@, address) == overlay_account(self.in_memory@.take(i as int), address),
            decreases i,
        {
            assert(self.in_memory@.take(i as int).drop_last() == self.in_memory@.take(i - 1));
            match find_account_change(&self.in_memory[i - 1].account_changes, address) {
                Some(info) => return info,
                None => {},
            }
            i = i - 1;
        }
        self.historical.account(address)
    }

    /// The value of slot `slot` of account `address`: the newest in-memory write,
    /// else the persisted value.
    pub fn storage(&self, address: Address, slot: B256) -> (r: B256)
        ensures
            r == self.spec_storage(address, slot),
    {
        let mut i: usize = self.in_memory.len();
        assert(self.in_memory@.take(i as int) == self.in_memory@);
        while i > 0
            invariant
                i <= self.in_memory@.len(),
                overlay_storage(self.in_memory@, address, slot) == overlay_storage(
                    self.in_memory@.take(i as int),
                    address,
                    slot,
                ),
            decreases i,
        {
            assert(self.in_memory@.take(i as int).drop_last() == self.in_memory@.take(i - 1));
            match find_storage_change(&self.in_memory[i - 1].storage_changes, address, slot) {
                Some(v) => return v,
                None => {},
            }
            i = i - 1;
        }
        self.historical.storage(address, slot)
    }

    /// The hash of the block at height `number`: the newest in-memory block at that
    /// height, else the persisted one.
    pub fn block_hash(&self, number: BlockNumber) -> (r: Option<B256>)
        ensures
            r == self.spec_block_hash(number),
    {
        let mut i: usize = self.in_memory.len();
        assert(self.in_memory@.take(i as int) == self.in_memory@);
        while i > 0
            invariant
                i <= self.in_memory@.len(),
                overlay_block_hash(self.in_memory@, number) == overlay_block_hash(self.in_memory@.take(i as int), number),
            decreases i,
        {
            assert(self.in_memory@.take(i as int).drop_last() == self.in_memory@.take(i - 1));
            if self.in_memory[i - 1].number == number {
                return Some(self.in_memory[i - 1].hash);
            }
            i = i - 1;
        }
        let mut j: usize = self.historical_hashes.len();
        assert(self.historical_hashes@.take(j as int) == self.historical_hashes@);
        while j > 0
            invariant
                j <= self.historical_hashes@.len(),
                overlay_block_hash(self.in_memory@, number) is None,
                persisted_block_hash(self.historical_hashes@, number) == persisted_block_hash(
                    self.historical_hashes@.take(j as int),
                    number,
                ),
            decreases j,
        {
            assert(self.historical_hashes@.take(j as int).drop_last() == self.historical_hashes@.take(j - 1));
            if self.historical_hashes[j - 1].number == number {
                return Some(self.historical_hashes[j - 1].hash);
            }
            j = j - 1;
        }
        None
    }
}

/// A block at the top of the overlay decides the accounts it touches: the view
/// reads the value that block left.
pub proof fn lemma_top_block_decides(o: MemoryOverlayStateProvider, a: Address)
    requires
        o.in_memory@.len() > 0,
        last_account_change(o.in_memory@.last().account_changes@, a) is Some,
    ensures
        Some(o.spec_account(a)) == last_account_change(o.in_memory@.last().account_changes@, a),
{
}

} // verus!
