//! The persisted chain below the in-memory tree: headers, and the state at its tip.
use vstd::prelude::*;
use crate::execution::{Account, AccountChange, StorageChange};
use crate::keyed::{keys_unique, lemma_to_map_contains, lemma_to_map_index, lemma_unique_push, to_map};
use crate::invalid_cache::header_key;
use crate::primitives::{Address, B256, BlockNumHash, SealedHeader};

verus! {

/// The last change to account `a` in `s`: `Some(None)` when it was destroyed,
/// `None` when `s` does not touch it.
pub open spec fn last_account_change(s: Seq<AccountChange>, a: Address) -> Option<Option<Account>>
    decreases s.len(),
{
    if s.len() == 0 {
        None
    } else if s.last().address == a {
        Some(s.last().info)
    } else {
        last_account_change(s.drop_last(), a)
    }
}

/// The last value written to slot `slot` of account `a` in `s`, if any.
pub open spec fn last_storage_change(s: Seq<StorageChange>, a: Address, slot: B256) -> Option<B256>
    decreases s.len(),
{
    if s.len() == 0 {
        None
    } else if s.last().address == a && s.last().slot == slot {
        Some(s.last().value)
    } else {
        last_storage_change(s.drop_last(), a, slot)
    }
}

/// The last change to account `address` in `changes`.
pub fn find_account_change(changes: &Vec<AccountChange>, address: Address) -> (r: Option<Option<Account>>)
    ensures
        r == last_account_change(changes@, address),
{
    let mut i: usize = changes.len();
    assert(changes@.take(i as int) == changes@);
    while i > 0
        invariant
            i <= changes@.len(),
            last_account_change(changes@, address) == last_account_change(changes@.take(i as int), address),
        decreases i,
    {
        assert(changes@.take(i as int).drop_last() == changes@.take(i - 1));
        if changes[i - 1].address == address {
            return Some(changes[i - 1].info);
        }
        i = i - 1;
    }
    None
}

/// The last value written to slot `slot` of account `address` in `changes`.
pub fn find_storage_change(changes: &Vec<StorageChange>, address: Address, slot: B256) -> (r: Option<B256>)
    ensures
        r == last_storage_change(changes@, address, slot),
{
    let mut i: usize = changes.len();
    assert(changes@.take(i as int) == changes@);
    while i > 0
        invariant
            i <= changes@.len(),
            last_storage_change(changes@, address, slot) == last_storage_change(changes@.take(i as int), address, slot),
        decreases i,
    {
        assert(changes@.take(i as int).drop_last() == changes@.take(i - 1));
        if changes[i - 1].address == address && changes[i - 1].slot == slot {
            return Some(changes[i - 1].value);
        }
        i = i - 1;
    }
    assert(changes@.take(0) == Seq::<StorageChange>::empty());
    None
}

/// A copy of a vector of plain values.
pub fn copy_vec<T: Copy>(v: &Vec<T>) -> (r: Vec<T>)
    ensures
        r@ == v@,
{
    let mut r: Vec<T> = Vec::new();
    let mut i: usize = 0;
    while i < v.len()
        invariant
            0 <= i <= v@.len(),
            r@ == v@.take(i as int),
        decreases v@.len() - i,
    {
        r.push(v[i]);
        assert(v@.take(i as int + 1) == v@.take(i as int).push(v@[i as int]));
        i = i + 1;
    }
    assert(v@.take(i as int) == v@);
    r
}

/// The committed state of accounts and storage at one block.
#[derive(Clone, Debug)]
pub struct StateSnapshot {
    /// Account entries; a later entry for an address wins over an earlier one.
    pub accounts: Vec<AccountChange>,
    /// Storage entries; a later entry for a slot wins over an earlier one.
    pub storage: Vec<StorageChange>,
}

/// The account `a` in snapshot `s`.
pub open spec fn snapshot_account(s: StateSnapshot, a: Address) -> Option<Account> {
    match last_account_change(s.accounts@, a) {
        Some(info) => info,
        None => None,
    }
}

/// The value of slot `slot` of account `a` in snapshot `s`; zero when never written.
pub open spec fn snapshot_storage(s: StateSnapshot, a: Address, slot: B256) -> B256 {
    match last_storage_change(s.storage@, a, slot) {
        Some(v) => v,
        None => B256::spec_zero(),
    }
}

impl StateSnapshot {
    /// A copy of the snapshot.
    pub fn copy(&self) -> (r: StateSnapshot)
        ensures
            r.accounts@ == self.accounts@,
            r.storage@ == self.storage@,
    {
        StateSnapshot { accounts: copy_vec(&self.accounts), storage: copy_vec(&self.storage) }
    }

    /// The account at `address`, if it exists.
    pub fn account(&self, address: Address) -> (r: Option<Account>)
        ensures
            r == snapshot_account(*self, address),
    {
        match find_account_change(&self.accounts, address) {
            Some(info) => info,
            None => None,
        }
    }

    /// The value of a storage slot.
    pub fn storage(&self, address: Address, slot: B256) -> (r: B256)
        ensures
            r == snapshot_storage(*self, address, slot),
    {
        match find_storage_change(&self.storage, address, slot) {
            Some(v) => v,
            None => B256::zero(),
        }
    }
}

/// A fault of the persisted store.
#[derive(Clone, Copy, Debug, PartialEq, Eq, Structural)]
pub enum ProviderError {
    /// The store holds no state for the block with this hash.
    StateForHashNotAvailable(B256),
}

/// The persisted chain: the headers of its blocks, and the state at its tip.
#[derive(Debug)]
pub struct InMemoryProvider {
    headers: Vec<SealedHeader>,
    tip_state: StateSnapshot,
}

impl View for InMemoryProvider {
    type V = Map<B256, SealedHeader>;

    closed spec fn view(&self) -> Map<B256, SealedHeader> {
        to_map(self.headers@, header_key())
    }
}

impl InMemoryProvider {
    pub closed spec fn wf(&self) -> bool {
        keys_unique(self.headers@, header_key()) && self.headers@.len() > 0
    }

    /// The hash of the last persisted block, whose state the store holds.
    pub closed spec fn tip_hash(&self) -> B256 {
        self.headers@.last().hash
    }

    /// The hash and number of each persisted block, in order of persistence.
    pub closed spec fn num_hashes(&self) -> Seq<BlockNumHash> {
        self.headers@.map_values(|h: SealedHeader| BlockNumHash { hash: h.hash, number: h.number })
    }

    /// The state at the tip.
    pub closed spec fn spec_tip_state(&self) -> StateSnapshot {
        self.tip_state
    }

    /// A store that holds `genesis` and the state after it.
    pub fn new(genesis: SealedHeader, state: StateSnapshot) -> (r: InMemoryProvider)
        ensures
            r.wf(),
            r@ == Map::<B256, SealedHeader>::empty().insert(genesis.hash, genesis),
            r.tip_hash() == genesis.hash,
            r.spec_tip_state() == state,
    {
        let mut headers: Vec<SealedHeader> = Vec::new();
        proof { lemma_unique_push(headers@, header_key(), genesis); }
        headers.push(genesis);
        InMemoryProvider { headers, tip_state: state }
    }

    fn position(&self, hash: B256) -> (r: Option<usize>)
        requires
            self.wf(),
        ensures
            r is None <==> !self@.contains_key(hash),
            r matches Some(i) ==> i < self.headers@.len() && self@[hash] == self.headers@[i as int]
                && self.headers@[i as int].hash == hash,
    {
        let mut i: usize = 0;
        while i < self.headers.len()
            invariant
                self.wf(),
                0 <= i <= self.headers@.len(),
                forall|j: int| 0 <= j < i ==> (#[trigger] self.headers@[j]).hash != hash,
            decreases self.headers@.len() - i,
        {
            if self.headers[i].hash == hash {
                proof { lemma_to_map_index(self.headers@, header_key(), i as int); }
                return Some(i);
            }
            i = i + 1;
        }
        proof {
            lemma_to_map_contains(self.headers@, header_key(), hash);
            if self@.contains_key(hash) {
                let k = choose|k: int| 0 <= k < self.headers@.len() && header_key()(#[trigger] self.headers@[k]) == hash;
            }
        }
        None
    }

    /// Appends `header` to the persisted chain with the state after it; a header
    /// already persisted is refused and nothing changes.
    pub fn persist(&mut self, header: SealedHeader, state: StateSnapshot) -> (r: bool)
        requires
            old(self).wf(),
        ensures
            final(self).wf(),
            r <==> !old(self)@.contains_key(header.hash),
            r ==> final(self)@ == old(self)@.insert(header.hash, header) && final(self).tip_hash() == header.hash
                && final(self).spec_tip_state() == state,
            !r ==> final(self)@ == old(self)@ && final(self).tip_hash() == old(self).tip_hash()
                && final(self).spec_tip_state() == old(self).spec_tip_state(),
    {
        if self.position(header.hash).is_some() {
            return false;
        }
        proof { lemma_unique_push(self.headers@, header_key(), header); }
        self.headers.push(header);
        self.tip_state = state;
        true
    }

    /// The header of the last persisted block.
    pub fn tip(&self) -> (r: SealedHeader)
        requires
            self.wf(),
        ensures
            r.hash == self.tip_hash(),
            self@.contains_key(r.hash),
            self@[r.hash] == r,
    {
        proof { lemma_to_map_index(self.headers@, header_key(), self.headers@.len() - 1); }
        self.headers[self.headers.len() - 1]
    }

    /// The hash and number of each persisted block, in order of persistence.
    pub fn block_num_hashes(&self) -> (r: Vec<BlockNumHash>)
        ensures
            r@ == self.num_hashes(),
    {
        let mut r: Vec<BlockNumHash> = Vec::new();
        let mut i: usize = 0;
        while i < self.headers.len()
            invariant
                0 <= i <= self.headers@.len(),
                r@ == self.headers@.take(i as int).map_values(|h: SealedHeader| BlockNumHash { hash: h.hash, number: h.number }),
            decreases self.headers@.len() - i,
        {
            r.push(BlockNumHash { hash: self.headers[i].hash, number: self.headers[i].number });
            proof {
                assert(r@ =~= self.headers@.take(i as int + 1).map_values(
                    |h: SealedHeader| BlockNumHash { hash: h.hash, number: h.number },
                ));
            }
            i = i + 1;
        }
        assert(self.headers@.take(i as int) == self.headers@);
        r
    }

    /// The persisted header with hash `hash`, if any.
    pub fn header_by_hash(&self, hash: B256) -> (r: Option<SealedHeader>)
        requires
            self.wf(),
        ensures
            r == (if self@.contains_key(hash) { Some(self@[hash]) } else { None::<SealedHeader> }),
    {
        match self.position(hash) {
            Some(i) => Some(self.headers[i]),
            None => None,
        }
    }

    /// The state after the block with hash `hash`: the store holds it for its tip only.
    pub fn state_by_block_hash(&self, hash: B256) -> (r: Result<StateSnapshot, ProviderError>)
        requires
            self.wf(),
        ensures
            r is Ok <==> hash == self.tip_hash(),
            r matches Ok(s) ==> s.accounts@ == self.spec_tip_state().accounts@
                && s.storage@ == self.spec_tip_state().storage@,
            r matches Err(e) ==> e == ProviderError::StateForHashNotAvailable(hash),
    {
        let n = self.headers.len();
        if self.headers[n - 1].hash == hash {
            Ok(self.tip_state.copy())
        } else {
            Err(ProviderError::StateForHashNotAvailable(hash))
        }
    }
}

} // verus!
