//! The engine-API tree handler: answers new payloads and forkchoice updates from
//! the tree state, the buffer of detached blocks and the cache of invalid headers.
use vstd::prelude::*;
use crate::block_buffer::BlockBuffer;
use crate::forkchoice::{ForkchoiceStateTracker, ForkchoiceStatus};
use crate::invalid_cache::{linked_to_ancestor, InvalidHeaderCache, INVALID_HEADER_CACHE_CAPACITY};
use crate::consensus::{block_error, block_rules_error, post_execution_error, validate_block, validate_block_post_execution};
use crate::engine_types::{
    BackfillAction, CancunPayloadFields, ConsensusError, DownloadRequest, ExecutionPayload, ForkchoiceState,
    ForkchoiceUpdateError, OnForkChoiceUpdated, PayloadAttributes, PayloadStatus, PayloadStatusEnum, TreeAction,
    TreeEvent, TreeOutcome, ValidationError,
};
use crate::execution::BlockExecutionOutput;
use crate::payload_validator::{ensure_well_formed_payload, payload_error, payload_header};
use crate::primitives::{recovered_senders, SealedBlock, SealedBlockWithSenders};
use crate::memory_overlay::{lemma_top_block_decides, state_of, BlockState, MemoryOverlayStateProvider};
use crate::payload_validator::ChainSpec;
use crate::primitives::{Address, B256, BlockNumHash, BlockNumber, SealedHeader};
use crate::provider::{last_account_change, InMemoryProvider, ProviderError};
use crate::execution::ExecutedBlock;
use crate::tree_state::{block_with_hash, blocks_from, has_hash, unique_hashes, TreeState};

verus! {

/// Walks the parent links of the invalid headers in `cache` from `cur` (itself
/// cached), at most `fuel` times past the first, and returns the first hash
/// reached that is a known block; none when the walk reaches a hash that is
/// neither known nor cached.
pub open spec fn invalid_chain_exit(
    cache: Map<B256, SealedHeader>,
    known: spec_fn(B256) -> bool,
    cur: B256,
    fuel: nat,
) -> Option<B256>
    decreases fuel,
{
    if !cache.contains_key(cur) {
        None
    } else {
        let next = cache[cur].parent_hash;
        if known(next) {
            Some(next)
        } else if !cache.contains_key(next) {
            None
        } else if fuel == 0 {
            None
        } else {
            invalid_chain_exit(cache, known, next, (fuel - 1) as nat)
        }
    }
}

/// The latest valid ancestor for an invalid payload whose parent is `parent`: the
/// parent itself when it is known, else the first known block reached through
/// the cached invalid headers, if any.
pub open spec fn latest_valid_hash(
    cache: Map<B256, SealedHeader>,
    known: spec_fn(B256) -> bool,
    parent: B256,
) -> Option<B256> {
    if known(parent) {
        Some(parent)
    } else {
        invalid_chain_exit(cache, known, parent, INVALID_HEADER_CACHE_CAPACITY as nat)
    }
}

/// The tree's blocks from the one with hash `h` back through its parents, oldest
/// first, following at most `fuel` links.
pub open spec fn tree_chain(s: Seq<ExecutedBlock>, h: B256, fuel: nat) -> Seq<ExecutedBlock>
    decreases fuel,
{
    if fuel == 0 || !has_hash(s, h) {
        Seq::empty()
    } else {
        tree_chain(s, block_with_hash(s, h).block.header.parent_hash, (fuel - 1) as nat).push(
            block_with_hash(s, h),
        )
    }
}

/// The hash at which [`tree_chain`] leaves the tree: the parent of its oldest block.
pub open spec fn tree_chain_root(s: Seq<ExecutedBlock>, h: B256, fuel: nat) -> B256
    decreases fuel,
{
    if fuel == 0 || !has_hash(s, h) {
        h
    } else {
        tree_chain_root(s, block_with_hash(s, h).block.header.parent_hash, (fuel - 1) as nat)
    }
}

/// Whether the blocks of `o` hold the state changes of `chain`, one for one.
pub open spec fn overlay_holds(o: MemoryOverlayStateProvider, chain: Seq<ExecutedBlock>) -> bool {
    o.in_memory@.len() == chain.len() && forall|i: int|
        0 <= i < chain.len() ==> state_of(#[trigger] o.in_memory@[i], chain[i])
}

/// Tracks the state of the engine api internals.
#[derive(Debug)]
pub struct EngineApiTreeState {
    /// Tracks the state of the blockchain tree.
    pub tree_state: TreeState,
    /// Tracks the received forkchoice state updates received by the CL.
    pub forkchoice_state_tracker: ForkchoiceStateTracker,
    /// Buffer of detached blocks.
    pub buffer: BlockBuffer,
    /// Tracks the header of invalid payloads that were rejected by the engine because they're
    /// invalid.
    pub invalid_headers: InvalidHeaderCache,
}

/// The type responsible for processing engine API requests.
#[derive(Debug)]
pub struct EngineApiTreeHandlerImpl {
    /// The persisted chain.
    pub provider: InMemoryProvider,
    /// The fork schedule.
    pub chain_spec: ChainSpec,
    pub state: EngineApiTreeState,
    /// The head of the canonical chain.
    pub canonical_head: BlockNumHash,
    /// Whether the full-sync pipeline runs: blocks are then buffered, not executed.
    pub is_pipeline_active: bool,
    /// How far ahead of the canonical head a forkchoice head may be before the
    /// tree asks for a backfill sync instead of downloading blocks.
    pub backfill_threshold: u64,
}

impl EngineApiTreeHandlerImpl {
    /// Every component is well formed.
    pub open spec fn wf(&self) -> bool {
        self.provider.wf() && self.state.tree_state.wf() && self.state.buffer.wf()
            && self.state.invalid_headers.wf()
    }

    /// Whether the block with hash `h` is known: persisted or in the tree.
    pub open spec fn is_known(&self, h: B256) -> bool {
        self.provider@.contains_key(h) || has_hash(self.state.tree_state@, h)
    }

    /// Whether the tree holds the block with hash `h`.
    pub open spec fn in_tree(&self, h: B256) -> bool {
        has_hash(self.state.tree_state@, h)
    }

    /// [`EngineApiTreeHandlerImpl::is_known`] as a predicate.
    pub open spec fn known_fn(&self) -> spec_fn(B256) -> bool {
        |h: B256| self.is_known(h)
    }

    /// The header of a known block: the persisted one first.
    pub open spec fn known_header(&self, h: B256) -> SealedHeader {
        if self.provider@.contains_key(h) {
            self.provider@[h]
        } else {
            block_with_hash(self.state.tree_state@, h).block.header
        }
    }

    /// The latest valid hash for an invalid payload with parent `parent`.
    pub open spec fn spec_latest_valid_hash(&self, parent: B256) -> Option<B256> {
        latest_valid_hash(self.state.invalid_headers@, self.known_fn(), parent)
    }

    /// The answer for a payload that descends from an invalid block whose parent is `parent`.
    ///
    /// A proof-of-work parent (nonzero difficulty) gives the zero hash; any other
    /// parent gives [`EngineApiTreeHandlerImpl::spec_latest_valid_hash`], null included.
    pub open spec fn spec_invalid_response(&self, parent: B256) -> PayloadStatus {
        PayloadStatus {
            status: PayloadStatusEnum::Invalid { validation_error: ValidationError::LinksToRejectedPayload },
            latest_valid_hash: if self.is_known(parent) && self.known_header(parent).difficulty != 0 {
                Some(B256::spec_zero())
            } else {
                self.spec_latest_valid_hash(parent)
            },
        }
    }

    /// A handler over the persisted chain `provider`, whose tip is the canonical head.
    pub fn new(
        provider: InMemoryProvider,
        chain_spec: ChainSpec,
        buffer_limit: usize,
        backfill_threshold: u64,
    ) -> (r: EngineApiTreeHandlerImpl)
        requires
            provider.wf(),
            buffer_limit > 0,
        ensures
            r.wf(),
            r.state.tree_state@.len() == 0,
            r.state.buffer@ == Map::<B256, crate::primitives::SealedBlockWithSenders>::empty(),
            r.state.invalid_headers@ == Map::<B256, SealedHeader>::empty(),
            r.canonical_head.hash == provider.tip_hash(),
            !r.is_pipeline_active,
            r.backfill_threshold == backfill_threshold,
            r.chain_spec == chain_spec,
            r.provider == provider,
    {
        let tip = provider.tip();
        EngineApiTreeHandlerImpl {
            provider,
            chain_spec,
            state: EngineApiTreeState {
                tree_state: TreeState::new(),
                forkchoice_state_tracker: ForkchoiceStateTracker::new(),
                buffer: BlockBuffer::new(buffer_limit),
                invalid_headers: InvalidHeaderCache::new(),
            },
            canonical_head: BlockNumHash { hash: tip.hash, number: tip.number },
            is_pipeline_active: false,
            backfill_threshold,
        }
    }

    /// Return the header of a block from the persisted chain or the in-memory tree.
    pub fn block_by_hash(&self, hash: B256) -> (r: Option<SealedHeader>)
        requires
            self.wf(),
        ensures
            r is Some <==> self.is_known(hash),
            r matches Some(h) ==> h == self.known_header(hash),
    {
        match self.provider.header_by_hash(hash) {
            Some(h) => Some(h),
            None => match self.state.tree_state.block_by_hash(hash) {
                Some(b) => Some(b.header),
                None => None,
            },
        }
    }

    /// Return state provider with reference to in-memory blocks that overlay the
    /// persisted state.
    pub fn state_provider(&self, hash: B256) -> (r: Result<MemoryOverlayStateProvider, ProviderError>)
        requires
            self.wf(),
        ensures
            r is Ok <==> tree_chain_root(self.state.tree_state@, hash, self.state.tree_state@.len())
                == self.provider.tip_hash(),
            r matches Ok(o) ==> overlay_holds(o, tree_chain(self.state.tree_state@, hash, self.state.tree_state@.len()))
                && o.historical.accounts@ == self.provider.spec_tip_state().accounts@
                && o.historical.storage@ == self.provider.spec_tip_state().storage@
                && o.historical_hashes@ == self.provider.num_hashes(),
            r matches Err(e) ==> e == ProviderError::StateForHashNotAvailable(
                tree_chain_root(self.state.tree_state@, hash, self.state.tree_state@.len()),
            ),
    {
        let ghost s = self.state.tree_state@;
        let ghost fuel = s.len();
        let mut in_memory: Vec<BlockState> = Vec::new();
        let mut parent_hash = hash;
        let mut steps: usize = 0;
        let ghost mut tail: Seq<ExecutedBlock> = Seq::empty();
        let mut done = false;
        while !done && steps < self.state.tree_state.len()
            invariant
                done ==> !has_hash(s, parent_hash),
                self.wf(),
                s == self.state.tree_state@,
                fuel == s.len(),
                steps <= fuel,
                tree_chain(s, hash, fuel) == tree_chain(s, parent_hash, (fuel - steps) as nat) + tail,
                tree_chain_root(s, hash, fuel) == tree_chain_root(s, parent_hash, (fuel - steps) as nat),
                in_memory@.len() == tail.len(),
                forall|i: int| 0 <= i < tail.len() ==> state_of(#[trigger] in_memory@[i], tail[i]),
            decreases fuel - steps, if done { 0int } else { 1int },
        {
            match self.state.tree_state.executed_block_by_hash(parent_hash) {
                None => {
                    done = true;
                },
                Some(executed) => {
                    let ghost old_mem = in_memory@;
                    let ghost prev = parent_hash;
                    in_memory.insert(0, BlockState::of(executed));
                    parent_hash = executed.block.header.parent_hash;
                    proof {
                        let f = (fuel - steps) as nat;
                        assert(tree_chain(s, prev, f) == tree_chain(s, parent_hash, (f - 1) as nat).push(*executed));
                        assert(tree_chain(s, parent_hash, (f - 1) as nat).push(*executed) + tail
                            =~= tree_chain(s, parent_hash, (f - 1) as nat) + seq![*executed].add(tail));
                        tail = seq![*executed].add(tail);
                        assert forall|i: int| 0 <= i < tail.len() implies state_of(#[trigger] in_memory@[i], tail[i]) by {
                            if i > 0 {
                                assert(in_memory@[i] == old_mem[i - 1]);
                            }
                        }
                    }
                    steps = steps + 1;
                },
            }
        }
        proof {
            let f = (fuel - steps) as nat;
            assert(tree_chain(s, parent_hash, f) == Seq::<ExecutedBlock>::empty());
            assert(tree_chain(s, hash, fuel) =~= tail);
        }
        let historical = self.provider.state_by_block_hash(parent_hash)?;
        let historical_hashes = self.provider.block_num_hashes();
        Ok(MemoryOverlayStateProvider::new(in_memory, historical, historical_hashes))
    }
}


impl EngineApiTreeHandlerImpl {
    /// If validation fails, the response must carry the latest valid hash: the
    /// parent when it is known, else the first known block reached through the
    /// cached invalid headers, else none.
    pub fn latest_valid_hash_for_invalid_payload(&self, parent_hash: B256) -> (r: Option<B256>)
        requires
            self.wf(),
        ensures
            r == self.spec_latest_valid_hash(parent_hash),
    {
        if self.block_by_hash(parent_hash).is_some() {
            return Some(parent_hash);
        }
        let ghost cache = self.state.invalid_headers@;
        let ghost known = self.known_fn();
        let mut current_hash = parent_hash;
        let mut current_header = self.state.invalid_headers.peek(current_hash);
        let mut fuel: usize = INVALID_HEADER_CACHE_CAPACITY;
        loop
            invariant
                self.wf(),
                cache == self.state.invalid_headers@,
                known == self.known_fn(),
                fuel <= INVALID_HEADER_CACHE_CAPACITY,
                current_header == (if cache.contains_key(current_hash) { Some(cache[current_hash]) } else { None::<SealedHeader> }),
                self.spec_latest_valid_hash(parent_hash) == invalid_chain_exit(cache, known, current_hash, fuel as nat),
            decreases fuel,
        {
            match current_header {
                None => {
                    return None;
                },
                Some(header) => {
                    let next = header.parent_hash;
                    if self.block_by_hash(next).is_some() {
                        return Some(next);
                    }
                    let next_header = self.state.invalid_headers.peek(next);
                    if next_header.is_none() {
                        return None;
                    }
                    if fuel == 0 {
                        return None;
                    }
                    fuel = fuel - 1;
                    current_hash = next;
                    current_header = next_header;
                },
            }
        }
    }

    /// Prepares the invalid payload response for a payload whose closest invalid
    /// ancestor has parent `parent_hash`: the latest valid hash is the zero hash
    /// when that parent is a proof-of-work block, else the latest valid ancestor,
    /// null when there is none.
    pub fn prepare_invalid_response(&self, parent_hash: B256) -> (r: PayloadStatus)
        requires
            self.wf(),
        ensures
            r == self.spec_invalid_response(parent_hash),
    {
        let proof_of_work = match self.block_by_hash(parent_hash) {
            Some(parent) => !parent.is_zero_difficulty(),
            None => false,
        };
        let latest_valid_hash = if proof_of_work {
            Some(B256::zero())
        } else {
            self.latest_valid_hash_for_invalid_payload(parent_hash)
        };
        PayloadStatus::new(
            PayloadStatusEnum::Invalid { validation_error: ValidationError::LinksToRejectedPayload },
            latest_valid_hash,
        )
    }

    /// Checks if the given `check` hash points to an invalid header, inserting the
    /// given `head` block into the invalid header cache if it does.
    ///
    /// Returns the payload status to answer with if the block is known to be invalid.
    pub fn check_invalid_ancestor_with_head(&mut self, check: B256, head: B256) -> (r: Option<PayloadStatus>)
        requires
            old(self).wf(),
        ensures
            final(self).wf(),
            final(self).provider == old(self).provider,
            final(self).state.tree_state == old(self).state.tree_state,
            final(self).state.buffer == old(self).state.buffer,
            final(self).state.forkchoice_state_tracker == old(self).state.forkchoice_state_tracker,
            final(self).is_pipeline_active == old(self).is_pipeline_active,
            final(self).canonical_head == old(self).canonical_head,
            final(self).chain_spec == old(self).chain_spec,
            final(self).backfill_threshold == old(self).backfill_threshold,
            r is None <==> !old(self).state.invalid_headers@.contains_key(check),
            r is None ==> final(self).state.invalid_headers == old(self).state.invalid_headers,
            r matches Some(status) ==> status == old(self).spec_invalid_response(
                old(self).state.invalid_headers@[check].parent_hash,
            ) && final(self).state.invalid_headers@.contains_key(head) && (old(self).state.invalid_headers@.contains_key(
                head,
            ) ==> final(self).state.invalid_headers@[head] == old(self).state.invalid_headers@[head]) && (
            !old(self).state.invalid_headers@.contains_key(head) ==> final(self).state.invalid_headers@[head]
                == linked_to_ancestor(head, old(self).state.invalid_headers@[check])),
    {
        let header = match self.state.invalid_headers.get(check) {
            Some(h) => h,
            None => {
                return None;
            },
        };
        proof { lemma_same_invalid_answers(*self, *old(self)); }
        let status = self.prepare_invalid_response(header.parent_hash);
        self.state.invalid_headers.insert_with_invalid_ancestor(head, header);
        Some(status)
    }

    /// The parent hash of the lowest buffered ancestor of `hash`; `hash` itself
    /// when neither it nor any of its ancestors is buffered.
    pub fn lowest_buffered_ancestor_or(&self, hash: B256) -> (r: B256)
        requires
            self.wf(),
        ensures
            r == (match self.state.buffer.spec_lowest_ancestor(hash) {
                Some(b) => b.block.header.parent_hash,
                None => hash,
            }),
    {
        match self.state.buffer.lowest_ancestor(hash) {
            Some(b) => b.block.header.parent_hash,
            None => {
                proof { reveal_with_fuel(crate::block_buffer::lowest_ancestor_walk, 1); }
                hash
            },
        }
    }
}

/// Two handlers with the same persisted chain, tree and invalid records give the
/// same latest valid hashes and the same invalid responses.
pub proof fn lemma_same_invalid_answers(a: EngineApiTreeHandlerImpl, b: EngineApiTreeHandlerImpl)
    requires
        a.provider == b.provider,
        a.state.tree_state == b.state.tree_state,
        a.state.invalid_headers@ == b.state.invalid_headers@,
    ensures
        forall|p: B256| #[trigger] a.spec_latest_valid_hash(p) == b.spec_latest_valid_hash(p),
        forall|p: B256| #[trigger] a.spec_invalid_response(p) == b.spec_invalid_response(p),
{
    assert(a.known_fn() =~= b.known_fn());
}

/// Extending the chain of cached invalid headers with a new invalid head, one that
/// no cached header names as its parent, leaves the latest valid hash of every
/// other hash as it was.
pub proof fn lemma_latest_valid_hash_stable_under_new_head(
    cache: Map<B256, SealedHeader>,
    known: spec_fn(B256) -> bool,
    head: B256,
    record: SealedHeader,
    parent: B256,
)
    requires
        !cache.contains_key(head),
        forall|k: B256| #[trigger] cache.contains_key(k) ==> cache[k].parent_hash != head,
        parent != head,
    ensures
        latest_valid_hash(cache.insert(head, record), known, parent) == latest_valid_hash(cache, known, parent),
{
    lemma_chain_exit_stable(cache, known, head, record, parent, INVALID_HEADER_CACHE_CAPACITY as nat);
}

/// The hash reached from `p` after `k` parent links through `cache`.
pub open spec fn invalid_chain_at(cache: Map<B256, SealedHeader>, p: B256, k: nat) -> B256
    decreases k,
{
    if k == 0 {
        p
    } else {
        cache[invalid_chain_at(cache, p, (k - 1) as nat)].parent_hash
    }
}

/// The first `m + 1` hashes of the chain from `p` are cached, and all but the
/// first are unknown: a walk from `p` goes on past them.
pub open spec fn chain_alive(cache: Map<B256, SealedHeader>, known: spec_fn(B256) -> bool, p: B256, m: nat) -> bool {
    forall|j: nat|
        j <= m ==> cache.contains_key(#[trigger] invalid_chain_at(cache, p, j)) && (j >= 1 ==> !known(
            invalid_chain_at(cache, p, j),
        ))
}

proof fn lemma_chain_periodic(cache: Map<B256, SealedHeader>, p: B256, i: nat, j: nat, k: nat)
    requires
        invalid_chain_at(cache, p, i) == invalid_chain_at(cache, p, j),
    ensures
        invalid_chain_at(cache, p, i + k) == invalid_chain_at(cache, p, j + k),
    decreases k,
{
    if k > 0 {
        lemma_chain_periodic(cache, p, i, j, (k - 1) as nat);
        assert(invalid_chain_at(cache, p, i + k) == cache[invalid_chain_at(cache, p, (i + k - 1) as nat)].parent_hash);
        assert(invalid_chain_at(cache, p, j + k) == cache[invalid_chain_at(cache, p, (j + k - 1) as nat)].parent_hash);
    }
}

/// A chain that stays cached and unknown for more links than the cache has
/// records goes round a cycle, so it never reaches a known block.
proof fn lemma_long_chain_stays_unknown(
    cache: Map<B256, SealedHeader>,
    known: spec_fn(B256) -> bool,
    p: B256,
    f: nat,
)
    requires
        cache.dom().finite(),
        cache.dom().len() <= f,
        chain_alive(cache, known, p, f + 1),
    ensures
        !known(invalid_chain_at(cache, p, f + 2)),
{
    let n = cache.dom().len();
    let sq = Seq::new(n + 1, |k: int| invalid_chain_at(cache, p, k as nat));
    assert forall|x: B256| sq.to_set().contains(x) implies cache.dom().contains(x) by {
        assert(sq.contains(x));
        let k = choose|k: int| 0 <= k < sq.len() && sq[k] == x;
        assert(invalid_chain_at(cache, p, k as nat) == x);
    }
    if sq.no_duplicates() {
        sq.unique_seq_to_set();
        vstd::set_lib::lemma_len_subset(sq.to_set(), cache.dom());
        assert(false);
    }
    let (i, j) = choose|i: int, j: int| 0 <= i < sq.len() && 0 <= j < sq.len() && i != j && sq[i] == sq[j];
    let (a, b) = if i < j { (i as nat, j as nat) } else { (j as nat, i as nat) };
    assert(invalid_chain_at(cache, p, a) == invalid_chain_at(cache, p, b));
    let k = (f + 2 - b) as nat;
    lemma_chain_periodic(cache, p, a, b, k);
    assert(b + k == f + 2);
    let r = (a + k) as nat;
    assert(1 <= r <= f + 1);
    assert(!known(invalid_chain_at(cache, p, r)));
}

proof fn lemma_chain_exit_extra_fuel_from(
    cache: Map<B256, SealedHeader>,
    known: spec_fn(B256) -> bool,
    p: B256,
    f: nat,
    m: nat,
)
    requires
        cache.dom().finite(),
        cache.dom().len() <= f,
        m <= f,
        chain_alive(cache, known, p, m),
    ensures
        invalid_chain_exit(cache, known, invalid_chain_at(cache, p, m), (f - m) as nat) == invalid_chain_exit(
            cache,
            known,
            invalid_chain_at(cache, p, m),
            (f + 1 - m) as nat,
        ),
    decreases f - m,
{
    let x = invalid_chain_at(cache, p, m);
    assert(cache.contains_key(invalid_chain_at(cache, p, m)));
    let next = cache[x].parent_hash;
    assert(invalid_chain_at(cache, p, m + 1) == next);
    if known(next) || !cache.contains_key(next) {
    } else if f == m {
        assert(chain_alive(cache, known, p, f + 1)) by {
            assert forall|j: nat| j <= f + 1 implies cache.contains_key(#[trigger] invalid_chain_at(cache, p, j)) && (
            j >= 1 ==> !known(invalid_chain_at(cache, p, j))) by {
                if j <= m {
                    assert(cache.contains_key(invalid_chain_at(cache, p, j)));
                }
            }
        }
        lemma_long_chain_stays_unknown(cache, known, p, f);
        assert(invalid_chain_at(cache, p, f + 2) == cache[next].parent_hash);
    } else {
        assert(chain_alive(cache, known, p, m + 1)) by {
            assert forall|j: nat| j <= m + 1 implies cache.contains_key(#[trigger] invalid_chain_at(cache, p, j)) && (
            j >= 1 ==> !known(invalid_chain_at(cache, p, j))) by {
                if j <= m {
                    assert(cache.contains_key(invalid_chain_at(cache, p, j)));
                }
            }
        }
        lemma_chain_exit_extra_fuel_from(cache, known, p, f, m + 1);
    }
}

/// Once the fuel covers every cached record, more fuel leaves the walk's answer as it is.
pub proof fn lemma_chain_exit_extra_fuel(cache: Map<B256, SealedHeader>, known: spec_fn(B256) -> bool, p: B256, f: nat)
    requires
        cache.dom().finite(),
        cache.dom().len() <= f,
    ensures
        invalid_chain_exit(cache, known, p, f) == invalid_chain_exit(cache, known, p, f + 1),
{
    if cache.contains_key(p) {
        assert(chain_alive(cache, known, p, 0)) by {
            assert forall|j: nat| j <= 0 implies cache.contains_key(#[trigger] invalid_chain_at(cache, p, j)) && (
            j >= 1 ==> !known(invalid_chain_at(cache, p, j))) by {
                assert(j == 0);
            }
        }
        lemma_chain_exit_extra_fuel_from(cache, known, p, f, 0);
    }
}

/// Caching a new invalid head on top of `parent` makes the head answer what
/// `parent` answered before: extending the chain never changes the latest valid hash.
pub proof fn lemma_latest_valid_hash_of_new_head(
    cache: Map<B256, SealedHeader>,
    known: spec_fn(B256) -> bool,
    head: B256,
    record: SealedHeader,
    parent: B256,
)
    requires
        cache.dom().finite(),
        cache.dom().len() < INVALID_HEADER_CACHE_CAPACITY,
        !cache.contains_key(head),
        !known(head),
        forall|k: B256| #[trigger] cache.contains_key(k) ==> cache[k].parent_hash != head,
        record.parent_hash == parent,
        parent != head,
    ensures
        latest_valid_hash(cache.insert(head, record), known, head) == latest_valid_hash(cache, known, parent),
{
    let c2 = cache.insert(head, record);
    let fuel = INVALID_HEADER_CACHE_CAPACITY as nat;
    assert(c2.contains_key(head) && c2[head] == record);
    if !known(parent) && cache.contains_key(parent) {
        lemma_chain_exit_stable(cache, known, head, record, parent, (fuel - 1) as nat);
        lemma_chain_exit_extra_fuel(cache, known, parent, (fuel - 1) as nat);
        assert(c2.contains_key(parent));
    }
}

proof fn lemma_chain_exit_stable(
    cache: Map<B256, SealedHeader>,
    known: spec_fn(B256) -> bool,
    head: B256,
    record: SealedHeader,
    cur: B256,
    fuel: nat,
)
    requires
        !cache.contains_key(head),
        forall|k: B256| #[trigger] cache.contains_key(k) ==> cache[k].parent_hash != head,
        cur != head,
    ensures
        invalid_chain_exit(cache.insert(head, record), known, cur, fuel) == invalid_chain_exit(cache, known, cur, fuel),
    decreases fuel,
{
    let c2 = cache.insert(head, record);
    if cache.contains_key(cur) {
        let next = cache[cur].parent_hash;
        assert(c2[cur] == cache[cur]);
        if cache.contains_key(next) && fuel > 0 {
            lemma_chain_exit_stable(cache, known, head, record, next, (fuel - 1) as nat);
        }
    }
}


/// Whether `r` answers the consensus layer with `status` and `event`.
pub open spec fn answered(r: Result<NewPayloadStep, ProviderError>, status: PayloadStatus, event: Option<TreeEvent>) -> bool {
    r matches Ok(NewPayloadStep::Status(o)) && o.outcome == status && o.event == event
}

/// Where a block stands after an attempt to insert it.
#[derive(Clone, Copy, Debug, PartialEq, Eq, Structural)]
pub enum BlockStatus {
    /// The block is in the tree or persisted.
    Valid,
    /// The block's parent is unknown: the block waits in the buffer.
    Disconnected,
}

/// What inserting a block did.
#[derive(Clone, Copy, Debug, PartialEq, Eq, Structural)]
pub enum InsertPayloadOk {
    /// The block was new.
    Inserted(BlockStatus),
    /// The block was there already.
    AlreadySeen(BlockStatus),
}

/// Why a block could not be inserted.
#[derive(Clone, Copy, Debug, PartialEq, Eq, Structural)]
pub enum InsertBlockErrorKind {
    /// The block breaks a consensus rule: it is invalid.
    Consensus(ConsensusError),
    /// The persisted store failed: nothing is known of the block.
    Provider(ProviderError),
    /// A transaction's signature recovers to no sender.
    SenderRecovery,
}

/// A block to execute, with the state to execute it on.
#[derive(Debug)]
pub struct ExecutionRequest {
    pub block: SealedBlockWithSenders,
    /// The state after the block's parent.
    pub state: MemoryOverlayStateProvider,
}

/// Where an insertion stands.
#[derive(Debug)]
pub enum InsertStep {
    /// The insertion is over.
    Done(InsertPayloadOk),
    /// The block is to be executed; the result goes to `on_block_executed`.
    Execute(ExecutionRequest),
}

/// What the caller has to do with a new payload.
#[derive(Debug)]
pub enum NewPayloadStep {
    /// Answer the consensus layer with this outcome.
    Status(TreeOutcome<PayloadStatus>),
    /// Execute this block and hand the result to `on_block_executed`, which
    /// gives the answer.
    Execute(ExecutionRequest),
}

impl EngineApiTreeHandlerImpl {
    /// The parts that block insertion never changes are equal in `self` and `other`.
    pub open spec fn same_setup(&self, other: &Self) -> bool {
        self.provider == other.provider && self.chain_spec == other.chain_spec
            && self.canonical_head == other.canonical_head
            && self.is_pipeline_active == other.is_pipeline_active
            && self.backfill_threshold == other.backfill_threshold
            && self.state.forkchoice_state_tracker == other.state.forkchoice_state_tracker
    }

    /// [`EngineApiTreeHandlerImpl::lowest_buffered_ancestor_or`] in spec.
    pub open spec fn spec_lowest_buffered_ancestor_or(&self, hash: B256) -> B256 {
        match self.state.buffer.spec_lowest_ancestor(hash) {
            Some(b) => b.block.header.parent_hash,
            None => hash,
        }
    }

    /// The hash whose invalidity would make a new block with hash `hash` and parent
    /// `parent` invalid: the parent of its lowest buffered ancestor, or its own parent.
    pub open spec fn spec_anchor(&self, hash: B256, parent: B256) -> B256 {
        if self.spec_lowest_buffered_ancestor_or(hash) == hash {
            parent
        } else {
            self.spec_lowest_buffered_ancestor_or(hash)
        }
    }

    /// Whether a payload passes the checks before insertion: it is well formed,
    /// descends from no block known to be invalid, and its senders recover.
    pub open spec fn spec_passes_checks(
        &self,
        payload: ExecutionPayload,
        cancun: Option<CancunPayloadFields>,
        header_hash: B256,
    ) -> bool {
        payload_error(self.chain_spec, payload, cancun, header_hash) is None
            && !self.state.invalid_headers@.contains_key(self.spec_anchor(header_hash, payload.parent_hash))
            && recovered_senders(payload.transactions@) is Some
    }

    /// The first consensus rule that the block described by a payload breaks, if any.
    pub open spec fn spec_payload_rules_error(
        &self,
        payload: ExecutionPayload,
        cancun: Option<CancunPayloadFields>,
        header_hash: B256,
    ) -> Option<ConsensusError> {
        block_rules_error(
            self.chain_spec,
            payload_header(payload, cancun, header_hash),
            0,
            payload.withdrawals is Some,
            payload.transactions@,
        )
    }

    /// The event that a `VALID` answer for `hash` carries: make it canonical when
    /// it is the head that sync works towards.
    pub open spec fn spec_valid_event(&self, hash: B256) -> Option<TreeEvent> {
        match self.state.forkchoice_state_tracker.last_syncing {
            Some(target) => if target.head_block_hash == hash {
                Some(TreeEvent::TreeAction(TreeAction::MakeCanonical(hash)))
            } else {
                None
            },
            None => None,
        }
    }

    /// Validate that the block satisfies the consensus rules on its header and body.
    pub fn validate_block(&self, block: &SealedBlockWithSenders) -> (r: Result<(), ConsensusError>)
        ensures
            r matches Err(e) ==> block_error(self.chain_spec, block.block) == Some(e),
            r is Ok <==> block_error(self.chain_spec, block.block) is None,
    {
        validate_block(&self.chain_spec, &block.block)
    }

    /// Buffers `block` after checking it against the consensus rules.
    pub fn buffer_block(&mut self, block: SealedBlockWithSenders) -> (r: Result<(), ConsensusError>)
        requires
            old(self).wf(),
            block.wf(),
        ensures
            final(self).wf(),
            final(self).same_setup(&*old(self)),
            final(self).state.tree_state == old(self).state.tree_state,
            final(self).state.invalid_headers == old(self).state.invalid_headers,
            r matches Err(e) ==> block_error(old(self).chain_spec, block.block) == Some(e)
                && final(self).state.buffer == old(self).state.buffer,
            r is Ok <==> block_error(old(self).chain_spec, block.block) is None,
            r is Ok ==> final(self).state.buffer@.contains_key(block.spec_hash()),
            r is Ok && old(self).state.buffer@.contains_key(block.spec_hash()) ==> final(self).state.buffer@
                == old(self).state.buffer@,
    {
        match self.validate_block(&block) {
            Err(e) => Err(e),
            Ok(()) => {
                self.state.buffer.insert_block(block);
                Ok(())
            },
        }
    }

    /// Inserts `block`: a block in the tree is seen already, a block of unknown parent is
    /// buffered, and any other valid block is handed out for execution on the
    /// state after its parent.
    pub fn insert_block(&mut self, block: SealedBlockWithSenders) -> (r: Result<InsertStep, InsertBlockErrorKind>)
        requires
            old(self).wf(),
            block.wf(),
        ensures
            final(self).wf(),
            final(self).same_setup(&*old(self)),
            final(self).state.tree_state == old(self).state.tree_state,
            final(self).state.invalid_headers == old(self).state.invalid_headers,
            old(self).in_tree(block.spec_hash()) ==> r == Ok::<InsertStep, InsertBlockErrorKind>(
                InsertStep::Done(InsertPayloadOk::AlreadySeen(BlockStatus::Valid)),
            ),
            !old(self).in_tree(block.spec_hash()) && block_error(old(self).chain_spec, block.block) is Some
                ==> r == Err::<InsertStep, InsertBlockErrorKind>(InsertBlockErrorKind::Consensus(
                block_error(old(self).chain_spec, block.block)->Some_0,
            )),
            !old(self).in_tree(block.spec_hash()) && block_error(old(self).chain_spec, block.block) is None
                && !old(self).is_known(block.block.header.parent_hash) ==> (r matches Ok(InsertStep::Done(
                InsertPayloadOk::Inserted(BlockStatus::Disconnected),
            )) || r matches Ok(InsertStep::Done(InsertPayloadOk::AlreadySeen(BlockStatus::Disconnected))))
                && final(self).state.buffer@.contains_key(block.spec_hash()),
            r matches Ok(InsertStep::Execute(req)) ==> req.block == block && !old(self).in_tree(block.spec_hash())
                && block_error(old(self).chain_spec, block.block) is None
                && old(self).is_known(block.block.header.parent_hash)
                && overlay_holds(req.state, tree_chain(old(self).state.tree_state@, block.block.header.parent_hash,
                    old(self).state.tree_state@.len())),
            r matches Ok(InsertStep::Done(InsertPayloadOk::AlreadySeen(BlockStatus::Valid))) ==> old(self).is_known(
                block.spec_hash(),
            ),
            !(r matches Ok(InsertStep::Done(InsertPayloadOk::Inserted(BlockStatus::Valid)))),
            !(r matches Err(InsertBlockErrorKind::SenderRecovery)),
            r matches Err(InsertBlockErrorKind::Consensus(e)) ==> block_error(old(self).chain_spec, block.block) == Some(e),
            !old(self).in_tree(block.spec_hash()) && block_error(old(self).chain_spec, block.block) is None
                && old(self).is_known(block.block.header.parent_hash) ==> if tree_chain_root(
                old(self).state.tree_state@,
                block.block.header.parent_hash,
                old(self).state.tree_state@.len(),
            ) == old(self).provider.tip_hash() {
                r matches Ok(InsertStep::Execute(_))
            } else {
                r == Err::<InsertStep, InsertBlockErrorKind>(InsertBlockErrorKind::Provider(
                    ProviderError::StateForHashNotAvailable(tree_chain_root(
                        old(self).state.tree_state@,
                        block.block.header.parent_hash,
                        old(self).state.tree_state@.len(),
                    )),
                ))
            },
            r matches Ok(InsertStep::Done(InsertPayloadOk::Inserted(BlockStatus::Disconnected))) ==> final(self).state.buffer@.contains_key(
                block.spec_hash(),
            ),
            r matches Ok(InsertStep::Done(InsertPayloadOk::AlreadySeen(BlockStatus::Disconnected))) ==> final(self).state.buffer@.contains_key(
                block.spec_hash(),
            ),
            !(r matches Ok(InsertStep::Done(InsertPayloadOk::Inserted(BlockStatus::Disconnected)))) && !(r matches Ok(
                InsertStep::Done(InsertPayloadOk::AlreadySeen(BlockStatus::Disconnected)),
            )) ==> final(self).state.buffer == old(self).state.buffer,
    {
        let hash = block.hash();
        if self.state.tree_state.contains(hash) {
            return Ok(InsertStep::Done(InsertPayloadOk::AlreadySeen(BlockStatus::Valid)));
        }
        match self.validate_block(&block) {
            Err(e) => {
                return Err(InsertBlockErrorKind::Consensus(e));
            },
            Ok(()) => {},
        }
        let parent_hash = block.block.header.parent_hash;
        if self.block_by_hash(parent_hash).is_none() {
            let seen = self.state.buffer.contains(hash);
            self.state.buffer.insert_block(block);
            if seen {
                return Ok(InsertStep::Done(InsertPayloadOk::AlreadySeen(BlockStatus::Disconnected)));
            }
            return Ok(InsertStep::Done(InsertPayloadOk::Inserted(BlockStatus::Disconnected)));
        }
        match self.state_provider(parent_hash) {
            Ok(state) => Ok(InsertStep::Execute(ExecutionRequest { block, state })),
            Err(e) => Err(InsertBlockErrorKind::Provider(e)),
        }
    }
}


impl EngineApiTreeHandlerImpl {
    /// Recovers the senders of `block` and buffers it after checking it against
    /// the consensus rules.
    pub fn buffer_block_without_senders(&mut self, block: SealedBlock) -> (r: Result<(), InsertBlockErrorKind>)
        requires
            old(self).wf(),
        ensures
            final(self).wf(),
            final(self).same_setup(&*old(self)),
            final(self).state.tree_state == old(self).state.tree_state,
            final(self).state.invalid_headers == old(self).state.invalid_headers,
            recovered_senders(block.body@) is None ==> r == Err::<(), InsertBlockErrorKind>(
                InsertBlockErrorKind::SenderRecovery,
            ),
            recovered_senders(block.body@) is Some && block_error(old(self).chain_spec, block) is Some ==> r == Err::<
                (),
                InsertBlockErrorKind,
            >(InsertBlockErrorKind::Consensus(block_error(old(self).chain_spec, block)->Some_0)),
            r is Ok <==> recovered_senders(block.body@) is Some && block_error(old(self).chain_spec, block) is None,
            r is Ok ==> final(self).state.buffer@.contains_key(block.spec_hash()),
            r is Err ==> final(self).state.buffer == old(self).state.buffer,
    {
        match block.try_seal_with_senders() {
            Ok(b) => match self.buffer_block(b) {
                Ok(()) => Ok(()),
                Err(e) => Err(InsertBlockErrorKind::Consensus(e)),
            },
            Err(_) => Err(InsertBlockErrorKind::SenderRecovery),
        }
    }

    /// Recovers the senders of `block` and inserts it, as [`EngineApiTreeHandlerImpl::insert_block`] does.
    pub fn insert_block_without_senders(&mut self, block: SealedBlock) -> (r: Result<InsertStep, InsertBlockErrorKind>)
        requires
            old(self).wf(),
        ensures
            final(self).wf(),
            final(self).same_setup(&*old(self)),
            final(self).state.tree_state == old(self).state.tree_state,
            final(self).state.invalid_headers == old(self).state.invalid_headers,
            recovered_senders(block.body@) is None <==> r == Err::<InsertStep, InsertBlockErrorKind>(
                InsertBlockErrorKind::SenderRecovery,
            ),
            recovered_senders(block.body@) is Some && old(self).in_tree(block.spec_hash()) ==> r == Ok::<
                InsertStep,
                InsertBlockErrorKind,
            >(InsertStep::Done(InsertPayloadOk::AlreadySeen(BlockStatus::Valid))),
            r matches Ok(InsertStep::Done(InsertPayloadOk::AlreadySeen(BlockStatus::Valid))) ==> old(self).is_known(
                block.spec_hash(),
            ),
            !(r matches Ok(InsertStep::Done(InsertPayloadOk::Inserted(BlockStatus::Valid)))),
            r matches Ok(InsertStep::Done(InsertPayloadOk::Inserted(BlockStatus::Disconnected))) ==> final(self).state.buffer@.contains_key(
                block.spec_hash(),
            ),
            r matches Ok(InsertStep::Done(InsertPayloadOk::AlreadySeen(BlockStatus::Disconnected))) ==> final(self).state.buffer@.contains_key(
                block.spec_hash(),
            ),
            r matches Ok(InsertStep::Execute(req)) ==> req.block.block == block && req.block.wf()
                && !old(self).in_tree(block.spec_hash()) && block_error(old(self).chain_spec, block) is None
                && old(self).is_known(block.header.parent_hash)
                && overlay_holds(req.state, tree_chain(old(self).state.tree_state@, block.header.parent_hash,
                    old(self).state.tree_state@.len())),
            r matches Err(InsertBlockErrorKind::Consensus(e)) ==> block_error(old(self).chain_spec, block) == Some(e),
            recovered_senders(block.body@) is Some && !old(self).in_tree(block.spec_hash()) && block_error(
                old(self).chain_spec,
                block,
            ) is Some ==> r == Err::<InsertStep, InsertBlockErrorKind>(
                InsertBlockErrorKind::Consensus(block_error(old(self).chain_spec, block)->Some_0),
            ),
            recovered_senders(block.body@) is Some && !old(self).in_tree(block.spec_hash()) && block_error(
                old(self).chain_spec,
                block,
            ) is None && !old(self).is_known(block.header.parent_hash) ==> r matches Ok(InsertStep::Done(
                InsertPayloadOk::Inserted(BlockStatus::Disconnected),
            )) || r matches Ok(InsertStep::Done(InsertPayloadOk::AlreadySeen(BlockStatus::Disconnected))),
            recovered_senders(block.body@) is Some && !old(self).in_tree(block.spec_hash()) && block_error(
                old(self).chain_spec,
                block,
            ) is None && old(self).is_known(block.header.parent_hash) ==> if tree_chain_root(
                old(self).state.tree_state@,
                block.header.parent_hash,
                old(self).state.tree_state@.len(),
            ) == old(self).provider.tip_hash() {
                r matches Ok(InsertStep::Execute(_))
            } else {
                r == Err::<InsertStep, InsertBlockErrorKind>(InsertBlockErrorKind::Provider(
                    ProviderError::StateForHashNotAvailable(tree_chain_root(
                        old(self).state.tree_state@,
                        block.header.parent_hash,
                        old(self).state.tree_state@.len(),
                    )),
                ))
            },
            !(r matches Ok(InsertStep::Done(InsertPayloadOk::Inserted(BlockStatus::Disconnected)))) && !(r matches Ok(
                InsertStep::Done(InsertPayloadOk::AlreadySeen(BlockStatus::Disconnected)),
            )) ==> final(self).state.buffer == old(self).state.buffer,
    {
        match block.try_seal_with_senders() {
            Ok(b) => self.insert_block(b),
            Err(_) => Err(InsertBlockErrorKind::SenderRecovery),
        }
    }
}

impl EngineApiTreeHandlerImpl {
    /// Answers a new payload from the consensus layer, `header_hash` being the hash
    /// of the header that the payload describes.
    ///
    /// An ill-formed payload, a payload that descends from an invalid block and a
    /// block that breaks a consensus rule are answered `INVALID`; while the pipeline
    /// runs, a valid block is buffered and answered `SYNCING`; otherwise a known
    /// block is answered `VALID`, a block of unknown parent is buffered and answered
    /// `SYNCING`, and any other block is handed out for execution.
    pub fn on_new_payload(
        &mut self,
        payload: ExecutionPayload,
        cancun_fields: Option<CancunPayloadFields>,
        header_hash: B256,
    ) -> (r: Result<NewPayloadStep, ProviderError>)
        requires
            old(self).wf(),
        ensures
            final(self).wf(),
            final(self).same_setup(&*old(self)),
            final(self).state.tree_state == old(self).state.tree_state,
            payload_error(old(self).chain_spec, payload, cancun_fields, header_hash) is Some ==> answered(
                r,
                PayloadStatus {
                    status: PayloadStatusEnum::Invalid {
                        validation_error: ValidationError::Payload(
                            payload_error(old(self).chain_spec, payload, cancun_fields, header_hash)->Some_0,
                        ),
                    },
                    latest_valid_hash: if payload_error(old(self).chain_spec, payload, cancun_fields, header_hash)->Some_0 is BlockHash
                        || payload_error(old(self).chain_spec, payload, cancun_fields, header_hash)->Some_0 is InvalidVersionedHashes {
                        None
                    } else {
                        old(self).spec_latest_valid_hash(payload.parent_hash)
                    },
                },
                None,
            ) && final(self).state.buffer == old(self).state.buffer
                && final(self).state.invalid_headers == old(self).state.invalid_headers,
            payload_error(old(self).chain_spec, payload, cancun_fields, header_hash) is None
                && old(self).state.invalid_headers@.contains_key(old(self).spec_anchor(header_hash, payload.parent_hash))
                ==> answered(
                r,
                old(self).spec_invalid_response(
                    old(self).state.invalid_headers@[old(self).spec_anchor(header_hash, payload.parent_hash)].parent_hash,
                ),
                None,
            ) && final(self).state.invalid_headers@.contains_key(header_hash),
            payload_error(old(self).chain_spec, payload, cancun_fields, header_hash) is None
                && !old(self).state.invalid_headers@.contains_key(old(self).spec_anchor(header_hash, payload.parent_hash))
                && recovered_senders(payload.transactions@) is None ==> answered(
                r,
                PayloadStatus {
                    status: PayloadStatusEnum::Invalid { validation_error: ValidationError::SenderRecovery },
                    latest_valid_hash: old(self).spec_latest_valid_hash(payload.parent_hash),
                },
                None,
            ),
            old(self).is_pipeline_active ==> !(r matches Ok(NewPayloadStep::Execute(_))),
            old(self).is_pipeline_active ==> r is Ok,
            old(self).spec_passes_checks(payload, cancun_fields, header_hash) && old(self).spec_payload_rules_error(
                payload,
                cancun_fields,
                header_hash,
            ) is Some && (old(self).is_pipeline_active || !old(self).in_tree(header_hash)) ==> answered(
                r,
                PayloadStatus {
                    status: PayloadStatusEnum::Invalid {
                        validation_error: ValidationError::Consensus(
                            old(self).spec_payload_rules_error(payload, cancun_fields, header_hash)->Some_0,
                        ),
                    },
                    latest_valid_hash: old(self).spec_latest_valid_hash(payload.parent_hash),
                },
                None,
            ) && final(self).state.invalid_headers@.contains_key(header_hash),
            old(self).spec_passes_checks(payload, cancun_fields, header_hash) && old(self).spec_payload_rules_error(
                payload,
                cancun_fields,
                header_hash,
            ) is None && old(self).is_pipeline_active ==> answered(
                r,
                PayloadStatus { status: PayloadStatusEnum::Syncing, latest_valid_hash: None },
                None,
            ) && final(self).state.buffer@.contains_key(header_hash),
            old(self).spec_passes_checks(payload, cancun_fields, header_hash) && !old(self).is_pipeline_active
                && old(self).in_tree(header_hash) ==> answered(
                r,
                PayloadStatus { status: PayloadStatusEnum::Valid, latest_valid_hash: Some(header_hash) },
                old(self).spec_valid_event(header_hash),
            ),
            old(self).spec_passes_checks(payload, cancun_fields, header_hash) && old(self).spec_payload_rules_error(
                payload,
                cancun_fields,
                header_hash,
            ) is None && !old(self).is_pipeline_active && !old(self).in_tree(header_hash) && !old(self).is_known(
                payload.parent_hash,
            ) ==> answered(
                r,
                PayloadStatus { status: PayloadStatusEnum::Syncing, latest_valid_hash: None },
                None,
            ) && final(self).state.buffer@.contains_key(header_hash),
            old(self).spec_passes_checks(payload, cancun_fields, header_hash) && old(self).spec_payload_rules_error(
                payload,
                cancun_fields,
                header_hash,
            ) is None && !old(self).is_pipeline_active && !old(self).in_tree(header_hash) && old(self).is_known(
                payload.parent_hash,
            ) ==> if tree_chain_root(old(self).state.tree_state@, payload.parent_hash, old(self).state.tree_state@.len())
                == old(self).provider.tip_hash() {
                r matches Ok(NewPayloadStep::Execute(_))
            } else {
                r == Err::<NewPayloadStep, ProviderError>(
                    ProviderError::StateForHashNotAvailable(
                        tree_chain_root(old(self).state.tree_state@, payload.parent_hash, old(self).state.tree_state@.len()),
                    ),
                )
            },
            r is Err ==> r == Err::<NewPayloadStep, ProviderError>(
                ProviderError::StateForHashNotAvailable(
                    tree_chain_root(old(self).state.tree_state@, payload.parent_hash, old(self).state.tree_state@.len()),
                ),
            ),
            r matches Ok(NewPayloadStep::Status(o)) ==> (old(self).is_pipeline_active ==> o.outcome.status is Syncing
                || o.outcome.status is Invalid),
            r matches Ok(NewPayloadStep::Status(o)) ==> (o.outcome.status is Syncing ==> final(self).state.buffer@.contains_key(
                header_hash,
            )),
            r matches Ok(NewPayloadStep::Status(o)) ==> (o.outcome.status is Valid ==> final(self).in_tree(header_hash) && o.outcome.latest_valid_hash
                == Some(header_hash) && o.event == old(self).spec_valid_event(header_hash)),
            r matches Ok(NewPayloadStep::Status(o)) ==> (
            o.outcome.status matches PayloadStatusEnum::Invalid { validation_error: ValidationError::Consensus(_) }
                ==> o.outcome.latest_valid_hash == old(self).spec_latest_valid_hash(payload.parent_hash)
                && final(self).state.invalid_headers@.contains_key(header_hash) && o.event is None),
            r matches Ok(NewPayloadStep::Execute(req)) ==> req.block.spec_hash() == header_hash && req.block.wf()
                && !old(self).in_tree(header_hash) && old(self).is_known(req.block.block.header.parent_hash)
                && overlay_holds(req.state, tree_chain(old(self).state.tree_state@, req.block.block.header.parent_hash,
                    old(self).state.tree_state@.len())),
    {
        let parent_hash = payload.parent_hash;
        let block = match ensure_well_formed_payload(&self.chain_spec, payload, cancun_fields, header_hash) {
            Ok(b) => b,
            Err(error) => {
                let latest_valid_hash = if error.is_block_hash_mismatch() || error.is_invalid_versioned_hashes() {
                    None
                } else {
                    self.latest_valid_hash_for_invalid_payload(parent_hash)
                };
                let status = PayloadStatus::new(
                    PayloadStatusEnum::Invalid { validation_error: ValidationError::Payload(error) },
                    latest_valid_hash,
                );
                return Ok(NewPayloadStep::Status(TreeOutcome::new(status)));
            },
        };
        let block_hash = block.hash();
        let mut lowest_buffered_ancestor = self.lowest_buffered_ancestor_or(block_hash);
        if lowest_buffered_ancestor == block_hash {
            lowest_buffered_ancestor = block.header.parent_hash;
        }
        match self.check_invalid_ancestor_with_head(lowest_buffered_ancestor, block_hash) {
            Some(status) => {
                return Ok(NewPayloadStep::Status(TreeOutcome::new(status)));
            },
            None => {},
        }
        let header = block.header;
        let result = if self.is_pipeline_active {
            match self.buffer_block_without_senders(block) {
                Ok(()) => Ok(PayloadStatus::from_status(PayloadStatusEnum::Syncing)),
                Err(e) => Err(e),
            }
        } else {
            match self.insert_block_without_senders(block) {
                Ok(InsertStep::Execute(request)) => {
                    return Ok(NewPayloadStep::Execute(request));
                },
                Ok(InsertStep::Done(InsertPayloadOk::Inserted(BlockStatus::Valid)))
                | Ok(InsertStep::Done(InsertPayloadOk::AlreadySeen(BlockStatus::Valid))) => {
                    Ok(PayloadStatus::new(PayloadStatusEnum::Valid, Some(block_hash)))
                },
                Ok(InsertStep::Done(InsertPayloadOk::Inserted(BlockStatus::Disconnected)))
                | Ok(InsertStep::Done(InsertPayloadOk::AlreadySeen(BlockStatus::Disconnected))) => {
                    Ok(PayloadStatus::from_status(PayloadStatusEnum::Syncing))
                },
                Err(e) => Err(e),
            }
        };
        let status = match result {
            Ok(status) => status,
            Err(InsertBlockErrorKind::Provider(e)) => {
                return Err(e);
            },
            Err(InsertBlockErrorKind::SenderRecovery) => {
                let latest_valid_hash = self.latest_valid_hash_for_invalid_payload(parent_hash);
                PayloadStatus::new(
                    PayloadStatusEnum::Invalid { validation_error: ValidationError::SenderRecovery },
                    latest_valid_hash,
                )
            },
            Err(InsertBlockErrorKind::Consensus(e)) => {
                let latest_valid_hash = self.latest_valid_hash_for_invalid_payload(parent_hash);
                self.state.invalid_headers.insert(header);
                PayloadStatus::new(
                    PayloadStatusEnum::Invalid { validation_error: ValidationError::Consensus(e) },
                    latest_valid_hash,
                )
            },
        };
        let mut outcome = TreeOutcome::new(status);
        if outcome.outcome.is_valid() {
            match self.state.forkchoice_state_tracker.sync_target_state() {
                Some(target) => {
                    if target.head_block_hash == block_hash {
                        outcome = outcome.with_event(TreeEvent::TreeAction(TreeAction::MakeCanonical(block_hash)));
                    }
                },
                None => {},
            }
        }
        Ok(NewPayloadStep::Status(outcome))
    }
}


/// Whether `e` is the executed form of `block` with execution output `output`.
pub open spec fn executed_from(e: ExecutedBlock, block: SealedBlockWithSenders, output: BlockExecutionOutput) -> bool {
    e.block == block.block && e.senders@ == block.senders@
        && e.execution_output.account_changes@ == output.account_changes@
        && e.execution_output.storage_changes@ == output.storage_changes@
        && e.execution_output.receipts@ == output.receipts@
        && e.execution_output.requests@ == output.requests@
        && e.execution_output.first_block == block.block.header.number
}

/// Whether following parent links from `h` through the tree, at most `fuel`
/// times, reaches `target`.
pub open spec fn tree_reaches(s: Seq<ExecutedBlock>, h: B256, target: B256, fuel: nat) -> bool
    decreases fuel,
{
    if h == target {
        true
    } else if fuel == 0 || !has_hash(s, h) {
        false
    } else {
        tree_reaches(s, block_with_hash(s, h).block.header.parent_hash, target, (fuel - 1) as nat)
    }
}

impl EngineApiTreeHandlerImpl {
    /// Finishes inserting `block` once the caller executed it on the state of an
    /// [`ExecutionRequest`]: a block whose outcome breaks a consensus rule is
    /// cached as invalid and answered `INVALID`, any other is stored in the tree
    /// and answered `VALID`.
    pub fn on_block_executed(&mut self, block: SealedBlockWithSenders, output: BlockExecutionOutput) -> (r: TreeOutcome<
        PayloadStatus,
    >)
        requires
            old(self).wf(),
            block.wf(),
        ensures
            final(self).wf(),
            final(self).same_setup(&*old(self)),
            final(self).state.buffer == old(self).state.buffer,
            old(self).in_tree(block.spec_hash()) ==> r.outcome == (PayloadStatus {
                status: PayloadStatusEnum::Valid,
                latest_valid_hash: Some(block.spec_hash()),
            }) && r.event == old(self).spec_valid_event(block.spec_hash())
                && final(self).state.tree_state == old(self).state.tree_state
                && final(self).state.invalid_headers == old(self).state.invalid_headers,
            !old(self).in_tree(block.spec_hash()) && post_execution_error(block.block, output) is Some ==> r.outcome
                == (PayloadStatus {
                status: PayloadStatusEnum::Invalid {
                    validation_error: ValidationError::Consensus(post_execution_error(block.block, output)->Some_0),
                },
                latest_valid_hash: old(self).spec_latest_valid_hash(block.block.header.parent_hash),
            }) && r.event is None && final(self).state.tree_state == old(self).state.tree_state
                && final(self).state.invalid_headers@.contains_key(block.spec_hash()),
            !old(self).in_tree(block.spec_hash()) && post_execution_error(block.block, output) is None ==> r.outcome
                == (PayloadStatus { status: PayloadStatusEnum::Valid, latest_valid_hash: Some(block.spec_hash()) })
                && r.event == old(self).spec_valid_event(block.spec_hash())
                && final(self).state.tree_state@.len() == old(self).state.tree_state@.len() + 1
                && final(self).state.tree_state@ == old(self).state.tree_state@.push(final(self).state.tree_state@.last())
                && executed_from(final(self).state.tree_state@.last(), block, output)
                && final(self).state.invalid_headers == old(self).state.invalid_headers,
            r.outcome.status is Valid ==> final(self).in_tree(block.spec_hash()),
    {
        let block_hash = block.hash();
        let status = if self.state.tree_state.contains(block_hash) {
            PayloadStatus::new(PayloadStatusEnum::Valid, Some(block_hash))
        } else {
            match validate_block_post_execution(&block.block, &output) {
                Err(e) => {
                    let latest_valid_hash = self.latest_valid_hash_for_invalid_payload(block.block.header.parent_hash);
                    self.state.invalid_headers.insert(block.block.header);
                    return TreeOutcome::new(
                        PayloadStatus::new(
                            PayloadStatusEnum::Invalid { validation_error: ValidationError::Consensus(e) },
                            latest_valid_hash,
                        ),
                    );
                },
                Ok(()) => {},
            }
            let executed = ExecutedBlock::new(block, output);
            self.state.tree_state.insert_executed(executed);
            proof {
                assert(has_hash(self.state.tree_state@, block_hash)) by {
                    assert(self.state.tree_state@[self.state.tree_state@.len() - 1].spec_hash() == block_hash);
                }
            }
            PayloadStatus::new(PayloadStatusEnum::Valid, Some(block_hash))
        };
        let mut outcome = TreeOutcome::new(status);
        match self.state.forkchoice_state_tracker.sync_target_state() {
            Some(target) => {
                if target.head_block_hash == block_hash {
                    outcome = outcome.with_event(TreeEvent::TreeAction(TreeAction::MakeCanonical(block_hash)));
                }
            },
            None => {},
        }
        outcome
    }

    /// Takes out of the buffer a block whose parent `parent` is now known, and
    /// hands it out for execution on the state after `parent`.
    pub fn connect_buffered_child(&mut self, parent: B256) -> (r: Result<Option<ExecutionRequest>, ProviderError>)
        requires
            old(self).wf(),
        ensures
            final(self).wf(),
            final(self).same_setup(&*old(self)),
            final(self).state.tree_state == old(self).state.tree_state,
            final(self).state.invalid_headers == old(self).state.invalid_headers,
            r matches Ok(None) ==> final(self).state.buffer@ == old(self).state.buffer@,
            r matches Ok(Some(req)) ==> req.block.block.header.parent_hash == parent && req.block.wf()
                && old(self).state.buffer@.contains_key(req.block.spec_hash())
                && final(self).state.buffer@ == old(self).state.buffer@.remove(req.block.spec_hash())
                && overlay_holds(req.state, tree_chain(old(self).state.tree_state@, parent, old(self).state.tree_state@.len())),
            !old(self).is_known(parent) ==> r matches Ok(None),
            r is Err <==> old(self).is_known(parent) && tree_chain_root(
                old(self).state.tree_state@,
                parent,
                old(self).state.tree_state@.len(),
            ) != old(self).provider.tip_hash(),
            r matches Err(e) ==> e == ProviderError::StateForHashNotAvailable(
                tree_chain_root(old(self).state.tree_state@, parent, old(self).state.tree_state@.len()),
            ),
            r is Ok && old(self).is_known(parent) ==> (r matches Ok(None) <==> !exists|h: B256|
                #[trigger] old(self).state.buffer@.contains_key(h) && old(self).state.buffer@[h].block.header.parent_hash == parent),
    {
        if self.block_by_hash(parent).is_none() {
            return Ok(None);
        }
        let state = self.state_provider(parent)?;
        match self.state.buffer.take_child_of(parent) {
            Some(block) => Ok(Some(ExecutionRequest { block, state })),
            None => Ok(None),
        }
    }

    /// Finds the next buffered block that now connects to the tree, searching the
    /// children of the hashes of `roots`, last first: a root without buffered
    /// children, or that is not a known block, is popped. Once the returned block
    /// is executed and valid, its hash is the caller's next root.
    pub fn connect_buffered_descendant(&mut self, roots: &mut Vec<B256>) -> (r: Result<Option<ExecutionRequest>, ProviderError>)
        requires
            old(self).wf(),
        ensures
            final(self).wf(),
            final(self).same_setup(&*old(self)),
            final(self).state.tree_state == old(self).state.tree_state,
            final(self).state.invalid_headers == old(self).state.invalid_headers,
            final(roots)@.len() <= old(roots)@.len(),
            final(roots)@ == old(roots)@.take(final(roots)@.len() as int),
            r matches Ok(None) ==> final(roots)@.len() == 0 && final(self).state.buffer@ == old(self).state.buffer@,
            r matches Ok(Some(req)) ==> final(roots)@.len() > 0 && req.block.block.header.parent_hash == final(roots)@.last()
                && req.block.wf() && old(self).state.buffer@.contains_key(req.block.spec_hash())
                && final(self).state.buffer@ == old(self).state.buffer@.remove(req.block.spec_hash())
                && overlay_holds(req.state, tree_chain(old(self).state.tree_state@, final(roots)@.last(),
                    old(self).state.tree_state@.len())),
            r matches Err(e) ==> final(roots)@.len() > 0 && e == ProviderError::StateForHashNotAvailable(
                tree_chain_root(old(self).state.tree_state@, final(roots)@.last(), old(self).state.tree_state@.len()),
            ),
    {
        while roots.len() > 0
            invariant
                self.wf(),
                self.same_setup(&*old(self)),
                self.state.tree_state == old(self).state.tree_state,
                self.state.invalid_headers == old(self).state.invalid_headers,
                self.state.buffer@ == old(self).state.buffer@,
                roots@.len() <= old(roots)@.len(),
                roots@ == old(roots)@.take(roots@.len() as int),
            decreases roots@.len(),
        {
            let parent = roots[roots.len() - 1];
            match self.connect_buffered_child(parent) {
                Ok(Some(request)) => {
                    return Ok(Some(request));
                },
                Ok(None) => {
                    roots.pop();
                    proof {
                        assert(roots@ =~= old(roots)@.take(roots@.len() as int));
                    }
                },
                Err(e) => {
                    return Err(e);
                },
            }
        }
        Ok(None)
    }

    /// Records that the caller started the backfill sync that the tree asked for:
    /// from now on blocks are buffered, not executed.
    pub fn on_backfill_sync_started(&mut self)
        ensures
            final(self).is_pipeline_active,
            final(self).state == old(self).state,
            final(self).provider == old(self).provider,
            final(self).canonical_head == old(self).canonical_head,
            final(self).chain_spec == old(self).chain_spec,
            final(self).backfill_threshold == old(self).backfill_threshold,
    {
        self.is_pipeline_active = true;
    }

    /// Records that the backfill sync finished: blocks are executed again.
    pub fn on_backfill_sync_finished(&mut self)
        ensures
            !final(self).is_pipeline_active,
            final(self).state == old(self).state,
            final(self).provider == old(self).provider,
            final(self).canonical_head == old(self).canonical_head,
            final(self).chain_spec == old(self).chain_spec,
            final(self).backfill_threshold == old(self).backfill_threshold,
    {
        self.is_pipeline_active = false;
    }
}

impl EngineApiTreeHandlerImpl {
    /// Whether a forkchoice head that is only buffered lies further ahead of the
    /// canonical head than the backfill threshold.
    pub open spec fn spec_beyond_threshold(&self, head: B256) -> bool {
        self.state.buffer@.contains_key(head) && self.state.buffer@[head].block.header.number
            > self.canonical_head.number + self.backfill_threshold
    }

    /// The height below which a forkchoice update prunes the tree for a finalized
    /// block at `finalized_number`: never above the child of the persisted tip, so
    /// every block left in the tree still reaches the persisted state.
    pub open spec fn spec_prune_height(&self, finalized_number: BlockNumber) -> BlockNumber {
        if finalized_number <= self.provider@[self.provider.tip_hash()].number {
            finalized_number
        } else {
            (self.provider@[self.provider.tip_hash()].number + 1) as BlockNumber
        }
    }

    /// Whether `finalized` may be finalized under `head`: the zero hash, a
    /// persisted block, or an ancestor of `head` in the tree.
    pub open spec fn spec_finalized_ok(&self, head: B256, finalized: B256) -> bool {
        finalized == B256::spec_zero() || self.provider@.contains_key(finalized) || tree_reaches(
            self.state.tree_state@,
            head,
            finalized,
            self.state.tree_state@.len(),
        )
    }

    /// Whether following parent links through the tree from `head` reaches `target`.
    pub fn tree_reaches(&self, head: B256, target: B256) -> (r: bool)
        requires
            self.wf(),
        ensures
            r == tree_reaches(self.state.tree_state@, head, target, self.state.tree_state@.len()),
    {
        let ghost s = self.state.tree_state@;
        let mut cur = head;
        let mut fuel: usize = self.state.tree_state.len();
        loop
            invariant
                self.wf(),
                s == self.state.tree_state@,
                fuel <= s.len(),
                tree_reaches(s, head, target, s.len()) == tree_reaches(s, cur, target, fuel as nat),
            decreases fuel,
        {
            if cur == target {
                return true;
            }
            if fuel == 0 {
                return false;
            }
            match self.state.tree_state.executed_block_by_hash(cur) {
                None => {
                    return false;
                },
                Some(b) => {
                    cur = b.block.header.parent_hash;
                    fuel = fuel - 1;
                },
            }
        }
    }

    /// Answers a forkchoice update from the consensus layer.
    ///
    /// The zero head and a head known to be invalid are answered `INVALID`; an
    /// unknown head is answered `SYNCING`, with a request to download what it
    /// lacks, or to backfill when a buffered head lies beyond the threshold; a
    /// known head whose finalized block is not its ancestor refuses the state; any
    /// other head becomes canonical, the buffer is pruned below the finalized
    /// block, the tree below it too but never below the child of the persisted tip,
    /// and the head is answered `VALID`.
    pub fn on_forkchoice_updated(&mut self, state: ForkchoiceState, attrs: Option<PayloadAttributes>) -> (r: TreeOutcome<
        Result<OnForkChoiceUpdated, ForkchoiceUpdateError>,
    >)
        requires
            old(self).wf(),
        ensures
            final(self).wf(),
            final(self).provider == old(self).provider,
            final(self).chain_spec == old(self).chain_spec,
            final(self).is_pipeline_active == old(self).is_pipeline_active,
            final(self).backfill_threshold == old(self).backfill_threshold,
            final(self).state.invalid_headers@ == old(self).state.invalid_headers@,
            final(self).state.invalid_headers.count() == old(self).state.invalid_headers.count(),
            state.head_block_hash == B256::spec_zero() ==> r.outcome == Ok::<OnForkChoiceUpdated, ForkchoiceUpdateError>(
                OnForkChoiceUpdated {
                    payload_status: PayloadStatus {
                        status: PayloadStatusEnum::Invalid { validation_error: ValidationError::ZeroForkchoiceHead },
                        latest_valid_hash: None,
                    },
                    build_payload: None,
                },
            ) && r.event is None && final(self).state.tree_state == old(self).state.tree_state
                && final(self).state.buffer == old(self).state.buffer && final(self).canonical_head == old(self).canonical_head,
            state.head_block_hash != B256::spec_zero() && old(self).state.invalid_headers@.contains_key(state.head_block_hash)
                ==> r.outcome == Ok::<OnForkChoiceUpdated, ForkchoiceUpdateError>(
                OnForkChoiceUpdated {
                    payload_status: old(self).spec_invalid_response(
                        old(self).state.invalid_headers@[state.head_block_hash].parent_hash,
                    ),
                    build_payload: None,
                },
            ) && r.event is None && final(self).state.tree_state == old(self).state.tree_state
                && final(self).state.buffer == old(self).state.buffer && final(self).canonical_head == old(self).canonical_head,
            state.head_block_hash != B256::spec_zero() && !old(self).state.invalid_headers@.contains_key(state.head_block_hash)
                && !old(self).is_known(state.head_block_hash) ==> r.outcome == Ok::<OnForkChoiceUpdated, ForkchoiceUpdateError>(
                OnForkChoiceUpdated {
                    payload_status: PayloadStatus { status: PayloadStatusEnum::Syncing, latest_valid_hash: None },
                    build_payload: None,
                },
            ) && r.event == Some(
                if old(self).spec_beyond_threshold(state.head_block_hash) {
                    TreeEvent::BackfillAction(BackfillAction::Start { target: state.head_block_hash })
                } else {
                    TreeEvent::Download(DownloadRequest::Block(old(self).spec_lowest_buffered_ancestor_or(state.head_block_hash)))
                },
            ) && final(self).state.forkchoice_state_tracker.last_syncing == Some(state)
                && final(self).state.tree_state == old(self).state.tree_state
                && final(self).state.buffer == old(self).state.buffer && final(self).canonical_head == old(self).canonical_head,
            state.head_block_hash != B256::spec_zero() && !old(self).state.invalid_headers@.contains_key(state.head_block_hash)
                && old(self).is_known(state.head_block_hash) && !old(self).spec_finalized_ok(
                state.head_block_hash,
                state.finalized_block_hash,
            ) ==> r.outcome == Err::<OnForkChoiceUpdated, ForkchoiceUpdateError>(ForkchoiceUpdateError::InvalidState)
                && r.event is None && final(self).state.tree_state == old(self).state.tree_state
                && final(self).state.buffer == old(self).state.buffer && final(self).canonical_head == old(self).canonical_head,
            state.head_block_hash != B256::spec_zero() && !old(self).state.invalid_headers@.contains_key(state.head_block_hash)
                && old(self).is_known(state.head_block_hash) && old(self).spec_finalized_ok(
                state.head_block_hash,
                state.finalized_block_hash,
            ) ==> r.outcome == Ok::<OnForkChoiceUpdated, ForkchoiceUpdateError>(
                OnForkChoiceUpdated {
                    payload_status: PayloadStatus {
                        status: PayloadStatusEnum::Valid,
                        latest_valid_hash: Some(state.head_block_hash),
                    },
                    build_payload: attrs,
                },
            ) && r.event is None && final(self).canonical_head == (BlockNumHash {
                hash: state.head_block_hash,
                number: old(self).known_header(state.head_block_hash).number,
            }) && final(self).state.forkchoice_state_tracker.last_valid == Some(state) && (if state.finalized_block_hash
                != B256::spec_zero() && old(self).is_known(state.finalized_block_hash) {
                final(self).state.tree_state@ == blocks_from(
                    old(self).state.tree_state@,
                    old(self).spec_prune_height(old(self).known_header(state.finalized_block_hash).number),
                ) && (forall|h: B256| #[trigger] final(self).state.buffer@.contains_key(h) <==> old(self).state.buffer@.contains_key(h)
                    && old(self).state.buffer@[h].block.header.number >= old(self).known_header(state.finalized_block_hash).number)
                    && (forall|h: B256| #[trigger] final(self).state.buffer@.contains_key(h) ==> final(self).state.buffer@[h]
                    == old(self).state.buffer@[h])
            } else {
                final(self).state.tree_state == old(self).state.tree_state && final(self).state.buffer == old(self).state.buffer
            }),
    {
        let head = state.head_block_hash;
        if head.is_zero() {
            self.state.forkchoice_state_tracker.set_latest(state, ForkchoiceStatus::Invalid);
            let status = PayloadStatus::new(
                PayloadStatusEnum::Invalid { validation_error: ValidationError::ZeroForkchoiceHead },
                None,
            );
            return TreeOutcome::new(Ok(OnForkChoiceUpdated { payload_status: status, build_payload: None }));
        }
        match self.state.invalid_headers.get(head) {
            Some(header) => {
                proof { lemma_same_invalid_answers(*self, *old(self)); }
                let status = self.prepare_invalid_response(header.parent_hash);
                self.state.forkchoice_state_tracker.set_latest(state, ForkchoiceStatus::Invalid);
                return TreeOutcome::new(Ok(OnForkChoiceUpdated { payload_status: status, build_payload: None }));
            },
            None => {},
        }
        let header = match self.block_by_hash(head) {
            Some(h) => h,
            None => {
                let beyond = match self.state.buffer.block(head) {
                    Some(b) => (b.block.header.number as u128) > (self.canonical_head.number as u128)
                        + (self.backfill_threshold as u128),
                    None => false,
                };
                let event = if beyond {
                    TreeEvent::BackfillAction(BackfillAction::Start { target: head })
                } else {
                    TreeEvent::Download(DownloadRequest::Block(self.lowest_buffered_ancestor_or(head)))
                };
                self.state.forkchoice_state_tracker.set_latest(state, ForkchoiceStatus::Syncing);
                let status = PayloadStatus::from_status(PayloadStatusEnum::Syncing);
                return TreeOutcome::new(Ok(OnForkChoiceUpdated { payload_status: status, build_payload: None })).with_event(
                    event,
                );
            },
        };
        let finalized = state.finalized_block_hash;
        let finalized_ok = finalized.is_zero() || self.provider.header_by_hash(finalized).is_some()
            || self.tree_reaches(head, finalized);
        if !finalized_ok {
            self.state.forkchoice_state_tracker.set_latest(state, ForkchoiceStatus::Invalid);
            return TreeOutcome::new(Err(ForkchoiceUpdateError::InvalidState));
        }
        self.canonical_head = BlockNumHash { hash: head, number: header.number };
        if !finalized.is_zero() {
            match self.block_by_hash(finalized) {
                Some(f) => {
                    let tip = self.provider.tip();
                    let height = if f.number <= tip.number { f.number } else { tip.number + 1 };
                    self.state.tree_state.remove_before(height);
                    self.state.buffer.remove_below(f.number);
                },
                None => {},
            }
        }
        self.state.forkchoice_state_tracker.set_latest(state, ForkchoiceStatus::Valid);
        let status = PayloadStatus::new(PayloadStatusEnum::Valid, Some(head));
        TreeOutcome::new(Ok(OnForkChoiceUpdated { payload_status: status, build_payload: attrs }))
    }
}

/// What taking in one downloaded block `b` does, from handler `a` to handler `z`:
/// a block that descends from a cached invalid block is cached as invalid; a
/// known block changes nothing; a block that breaks a consensus rule is cached as
/// invalid; any other block is buffered.
pub open spec fn download_step(a: EngineApiTreeHandlerImpl, z: EngineApiTreeHandlerImpl, b: SealedBlockWithSenders) -> bool {
    let h = b.spec_hash();
    z.same_setup(&a) && z.state.tree_state == a.state.tree_state && if a.state.invalid_headers@.contains_key(
        a.spec_anchor(h, b.block.header.parent_hash),
    ) {
        z.state.invalid_headers@.contains_key(h) && z.state.buffer == a.state.buffer
    } else if a.is_known(h) {
        z.state.invalid_headers == a.state.invalid_headers && z.state.buffer == a.state.buffer
    } else if block_error(a.chain_spec, b.block) is Some {
        z.state.invalid_headers@.contains_key(h) && z.state.buffer == a.state.buffer
    } else {
        z.state.buffer@.contains_key(h) && z.state.invalid_headers == a.state.invalid_headers
    }
}

impl EngineApiTreeHandlerImpl {
    /// The event that downloaded blocks lead to: make the sync target canonical
    /// once it is known, or once its buffered chain reaches a known block.
    pub open spec fn spec_download_event(&self) -> Option<TreeEvent> {
        match self.state.forkchoice_state_tracker.last_syncing {
            Some(target) => if self.is_known(target.head_block_hash) || (self.state.buffer@.contains_key(
                target.head_block_hash,
            ) && self.is_known(self.spec_lowest_buffered_ancestor_or(target.head_block_hash))) {
                Some(TreeEvent::TreeAction(TreeAction::MakeCanonical(target.head_block_hash)))
            } else {
                None
            },
            None => None,
        }
    }

    /// Takes in blocks that were downloaded on request: a block that descends from
    /// an invalid block, or breaks a consensus rule, is cached as invalid; any
    /// other unknown block is buffered, to be connected and executed through
    /// [`EngineApiTreeHandlerImpl::connect_buffered_child`].
    pub fn on_downloaded(&mut self, blocks: Vec<SealedBlockWithSenders>) -> (r: Option<TreeEvent>)
        requires
            old(self).wf(),
            forall|i: int| 0 <= i < blocks@.len() ==> (#[trigger] blocks@[i]).wf(),
        ensures
            final(self).wf(),
            final(self).same_setup(&*old(self)),
            final(self).state.tree_state == old(self).state.tree_state,
            r == final(self).spec_download_event(),
            exists|states: Seq<EngineApiTreeHandlerImpl>|
                states.len() == blocks@.len() + 1 && states[0] == *old(self) && states.last() == *final(self)
                    && forall|i: int| 0 <= i < blocks@.len() ==> download_step(#[trigger] states[i], states[i + 1], blocks@[i]),
    {
        let ghost all = blocks@;
        let ghost mut states: Seq<EngineApiTreeHandlerImpl> = seq![*self];
        let mut blocks = blocks;
        while blocks.len() > 0
            invariant
                self.wf(),
                self.same_setup(&*old(self)),
                self.state.tree_state == old(self).state.tree_state,
                forall|i: int| 0 <= i < blocks@.len() ==> (#[trigger] blocks@[i]).wf(),
                states.len() >= 1,
                states.len() + blocks@.len() == all.len() + 1,
                blocks@ == all.subrange(states.len() - 1, all.len() as int),
                states[0] == *old(self),
                states.last() == *self,
                forall|i: int| 0 <= i < states.len() - 1 ==> download_step(#[trigger] states[i], states[i + 1], all[i]),
            decreases blocks@.len(),
        {
            let ghost before = *self;
            let ghost k = states.len() - 1;
            let block = blocks.remove(0);
            proof { assert(block == all[k]); assert(block.wf()); }
            let hash = block.hash();
            let mut anchor = self.lowest_buffered_ancestor_or(hash);
            if anchor == hash {
                anchor = block.block.header.parent_hash;
            }
            if self.check_invalid_ancestor_with_head(anchor, hash).is_none() && self.block_by_hash(hash).is_none() {
                let header = block.block.header;
                match self.buffer_block(block) {
                    Ok(()) => {},
                    Err(_) => {
                        self.state.invalid_headers.insert(header);
                    },
                }
            }
            proof {
                assert(download_step(before, *self, all[k]));
                let old_states = states;
                states = states.push(*self);
                assert forall|i: int| 0 <= i < states.len() - 1 implies download_step(#[trigger] states[i], states[i + 1], all[i]) by {
                    if i < k {
                        assert(states[i] == old_states[i] && states[i + 1] == old_states[i + 1]);
                    }
                }
                assert(blocks@ =~= all.subrange(states.len() - 1, all.len() as int));
            }
        }
        proof {
            assert(states.len() == all.len() + 1);
        }
        match self.state.forkchoice_state_tracker.sync_target_state() {
            Some(target) => {
                let head = target.head_block_hash;
                let reachable = self.block_by_hash(head).is_some() || (self.state.buffer.contains(head)
                    && self.block_by_hash(self.lowest_buffered_ancestor_or(head)).is_some());
                if reachable {
                    Some(TreeEvent::TreeAction(TreeAction::MakeCanonical(head)))
                } else {
                    None
                }
            },
            None => None,
        }
    }
}

/// A block in the tree decides, in the view that `state_provider` builds at its
/// hash, every account that it touched: the view reads the value the block left.
pub proof fn lemma_state_provider_reads_block_changes(
    t: Seq<ExecutedBlock>,
    h: B256,
    o: MemoryOverlayStateProvider,
    a: Address,
)
    requires
        unique_hashes(t),
        has_hash(t, h),
        overlay_holds(o, tree_chain(t, h, t.len())),
        last_account_change(block_with_hash(t, h).execution_output.account_changes@, a) is Some,
    ensures
        Some(o.spec_account(a)) == last_account_change(block_with_hash(t, h).execution_output.account_changes@, a),
{
    let c = tree_chain(t, h, t.len());
    assert(c.last() == block_with_hash(t, h));
    assert(state_of(o.in_memory@[c.len() - 1], c[c.len() - 1]));
    lemma_top_block_decides(o, a);
}

} // verus!
