//! Buffer of blocks that passed validation but whose parent is not known yet.
use vstd::prelude::*;
use crate::keyed::{keys_unique, lemma_to_map_contains, lemma_to_map_index, lemma_to_map_remove, lemma_unique_push, to_map};
use crate::primitives::{B256, BlockNumber, SealedBlockWithSenders};

verus! {

/// The key of a buffered block: its hash.
pub open spec fn block_key() -> spec_fn(SealedBlockWithSenders) -> B256 {
    |b: SealedBlockWithSenders| b.block.header.hash
}

/// Follows parent links from `h` through the blocks of `m`, at most `fuel` times,
/// and returns the last block reached: the lowest buffered ancestor of `h`.
pub open spec fn lowest_ancestor_walk(
    m: Map<B256, SealedBlockWithSenders>,
    h: B256,
    fuel: nat,
) -> Option<SealedBlockWithSenders>
    decreases fuel,
{
    if !m.contains_key(h) {
        None
    } else if fuel == 0 || !m.contains_key(m[h].block.header.parent_hash) {
        Some(m[h])
    } else {
        lowest_ancestor_walk(m, m[h].block.header.parent_hash, (fuel - 1) as nat)
    }
}

/// Validated blocks that do not connect to the tree yet, keyed by hash.
///
/// Blocks are kept in order of insertion; when more than `limit` are held, the
/// one inserted longest ago is evicted.
#[derive(Debug)]
pub struct BlockBuffer {
    blocks: Vec<SealedBlockWithSenders>,
    limit: usize,
}

impl View for BlockBuffer {
    type V = Map<B256, SealedBlockWithSenders>;

    closed spec fn view(&self) -> Map<B256, SealedBlockWithSenders> {
        to_map(self.blocks@, block_key())
    }
}

impl BlockBuffer {
    /// Blocks are keyed uniquely, each carries its senders, and the limit holds.
    pub closed spec fn wf(&self) -> bool {
        keys_unique(self.blocks@, block_key())
            && 0 < self.limit
            && self.blocks@.len() <= self.limit
            && forall|i: int| 0 <= i < self.blocks@.len() ==> (#[trigger] self.blocks@[i]).wf()
    }

    /// How many blocks the buffer holds.
    pub closed spec fn count(&self) -> nat {
        self.blocks@.len()
    }

    /// The most blocks the buffer keeps.
    pub closed spec fn spec_limit(&self) -> nat {
        self.limit as nat
    }

    /// The hash of the block inserted longest ago.
    pub closed spec fn oldest(&self) -> B256 {
        self.blocks@[0].block.header.hash
    }

    /// The lowest buffered ancestor of `h`, as [`BlockBuffer::lowest_ancestor`] returns it.
    pub open spec fn spec_lowest_ancestor(&self, h: B256) -> Option<SealedBlockWithSenders> {
        lowest_ancestor_walk(self@, h, self.count())
    }

    /// An empty buffer that keeps at most `limit` blocks.
    pub fn new(limit: usize) -> (r: BlockBuffer)
        requires
            limit > 0,
        ensures
            r.wf(),
            r@ == Map::<B256, SealedBlockWithSenders>::empty(),
            r.count() == 0,
            r.spec_limit() == limit,
    {
        let r = BlockBuffer { blocks: Vec::new(), limit };
        assert(r@ =~= Map::<B256, SealedBlockWithSenders>::empty());
        r
    }

    /// How many blocks the buffer holds.
    pub fn len(&self) -> (r: usize)
        ensures
            r == self.count(),
    {
        self.blocks.len()
    }

    proof fn lemma_wf_values(&self, h: B256)
        requires
            self.wf(),
            self@.contains_key(h),
        ensures
            self@[h].wf(),
            self@[h].block.header.hash == h,
    {
        lemma_to_map_contains(self.blocks@, block_key(), h);
        let k = choose|k: int| 0 <= k < self.blocks@.len() && block_key()(#[trigger] self.blocks@[k]) == h;
        lemma_to_map_index(self.blocks@, block_key(), k);
    }

    fn position(&self, hash: B256) -> (r: Option<usize>)
        requires
            self.wf(),
        ensures
            r is None <==> !self@.contains_key(hash),
            r matches Some(i) ==> i < self.blocks@.len() && self.blocks@[i as int].block.header.hash == hash
                && self@[hash] == self.blocks@[i as int],
    {
        let mut i: usize = 0;
        while i < self.blocks.len()
            invariant
                self.wf(),
                0 <= i <= self.blocks@.len(),
                forall|j: int| 0 <= j < i ==> (#[trigger] self.blocks@[j]).block.header.hash != hash,
            decreases self.blocks@.len() - i,
        {
            if self.blocks[i].block.header.hash == hash {
                proof { lemma_to_map_index(self.blocks@, block_key(), i as int); }
                return Some(i);
            }
            i = i + 1;
        }
        proof {
            lemma_to_map_contains(self.blocks@, block_key(), hash);
            if self@.contains_key(hash) {
                let k = choose|k: int| 0 <= k < self.blocks@.len() && block_key()(#[trigger] self.blocks@[k]) == hash;
            }
        }
        None
    }

    /// Whether the buffer holds the block with hash `hash`.
    pub fn contains(&self, hash: B256) -> (r: bool)
        requires
            self.wf(),
        ensures
            r <==> self@.contains_key(hash),
    {
        self.position(hash).is_some()
    }

    /// The buffered block with hash `hash`, if any.
    pub fn block(&self, hash: B256) -> (r: Option<&SealedBlockWithSenders>)
        requires
            self.wf(),
        ensures
            r is None <==> !self@.contains_key(hash),
            r matches Some(b) ==> *b == self@[hash],
    {
        match self.position(hash) {
            Some(i) => Some(&self.blocks[i]),
            None => None,
        }
    }

    /// Stores `block`; a block that is already buffered is left as it is.
    pub fn insert_block(&mut self, block: SealedBlockWithSenders)
        requires
            old(self).wf(),
            block.wf(),
        ensures
            final(self).wf(),
            final(self).spec_limit() == old(self).spec_limit(),
            old(self)@.contains_key(block.spec_hash()) ==> final(self)@ == old(self)@,
            !old(self)@.contains_key(block.spec_hash()) && old(self).count() < old(self).spec_limit()
                ==> final(self)@ == old(self)@.insert(block.spec_hash(), block),
            !old(self)@.contains_key(block.spec_hash()) && old(self).count() >= old(self).spec_limit()
                ==> old(self)@.contains_key(old(self).oldest()) && final(self)@ == old(self)@.remove(
                old(self).oldest(),
            ).insert(block.spec_hash(), block),
    {
        let ghost s = self.blocks@;
        if self.contains(block.hash()) {
            return;
        }
        if self.blocks.len() >= self.limit {
            proof {
                lemma_to_map_remove(s, block_key(), 0);
                lemma_to_map_index(s, block_key(), 0);
            }
            self.blocks.remove(0);
        }
        proof { lemma_unique_push(self.blocks@, block_key(), block); }
        self.blocks.push(block);
    }

    /// Starting at `hash`, follows parent hashes within the buffer only and
    /// returns the lowest buffered block along that chain; `None` when `hash`
    /// itself is not buffered.
    pub fn lowest_ancestor(&self, hash: B256) -> (r: Option<&SealedBlockWithSenders>)
        requires
            self.wf(),
        ensures
            r is None <==> !self@.contains_key(hash),
            r matches Some(b) ==> self.spec_lowest_ancestor(hash) == Some(*b),
    {
        let mut cur: usize = match self.position(hash) {
            Some(i) => i,
            None => return None,
        };
        let mut steps: usize = 0;
        while steps < self.blocks.len()
            invariant
                self.wf(),
                cur < self.blocks@.len(),
                steps <= self.blocks@.len(),
                self@.contains_key(self.blocks@[cur as int].block.header.hash),
                self@[self.blocks@[cur as int].block.header.hash] == self.blocks@[cur as int],
                lowest_ancestor_walk(self@, hash, self.count()) == lowest_ancestor_walk(
                    self@,
                    self.blocks@[cur as int].block.header.hash,
                    (self.count() - steps) as nat,
                ),
            decreases self.blocks@.len() - steps,
        {
            let parent = self.blocks[cur].block.header.parent_hash;
            match self.position(parent) {
                None => return Some(&self.blocks[cur]),
                Some(p) => {
                    cur = p;
                    steps = steps + 1;
                },
            }
        }
        Some(&self.blocks[cur])
    }

    /// Takes out of the buffer one block whose parent is `parent`, if any.
    pub fn take_child_of(&mut self, parent: B256) -> (r: Option<SealedBlockWithSenders>)
        requires
            old(self).wf(),
        ensures
            final(self).wf(),
            final(self).spec_limit() == old(self).spec_limit(),
            r is None <==> !exists|h: B256| #[trigger] old(self)@.contains_key(h)
                && old(self)@[h].block.header.parent_hash == parent,
            r is None ==> final(self)@ == old(self)@,
            r matches Some(b) ==> b.block.header.parent_hash == parent && b.wf()
                && old(self)@.contains_key(b.spec_hash()) && old(self)@[b.spec_hash()] == b
                && final(self)@ == old(self)@.remove(b.spec_hash()),
    {
        let ghost s = self.blocks@;
        let mut i: usize = 0;
        while i < self.blocks.len()
            invariant
                self.wf(),
                self.limit == old(self).limit,
                self.blocks@ == s,
                old(self).blocks@ == s,
                0 <= i <= s.len(),
                forall|j: int| 0 <= j < i ==> (#[trigger] s[j]).block.header.parent_hash != parent,
            decreases s.len() - i,
        {
            if self.blocks[i].block.header.parent_hash == parent {
                proof {
                    lemma_to_map_remove(s, block_key(), i as int);
                    lemma_to_map_index(s, block_key(), i as int);
                }
                let b = self.blocks.remove(i);
                proof {
                    assert(b == s[i as int]);
                    assert(block_key()(s[i as int]) == b.spec_hash());
                    assert(s[i as int].wf());
                    assert(old(self)@.contains_key(b.spec_hash()) && old(self)@[b.spec_hash()].block.header.parent_hash == parent);
                    assert forall|k: int| 0 <= k < self.blocks@.len() implies (#[trigger] self.blocks@[k]).wf() by {
                        if k < i { assert(self.blocks@[k] == s[k]); } else { assert(self.blocks@[k] == s[k + 1]); }
                    }
                }
                return Some(b);
            }
            i = i + 1;
        }
        proof {
            assert forall|h: B256| #[trigger] self@.contains_key(h) implies self@[h].block.header.parent_hash != parent by {
                lemma_to_map_contains(s, block_key(), h);
                let k = choose|k: int| 0 <= k < s.len() && block_key()(#[trigger] s[k]) == h;
                lemma_to_map_index(s, block_key(), k);
            }
        }
        None
    }

    /// Drops every buffered block below height `n`.
    pub fn remove_below(&mut self, n: BlockNumber)
        requires
            old(self).wf(),
        ensures
            final(self).wf(),
            final(self).spec_limit() == old(self).spec_limit(),
            forall|h: B256| #[trigger] final(self)@.contains_key(h) <==> old(self)@.contains_key(h)
                && old(self)@[h].block.header.number >= n,
            forall|h: B256| #[trigger] final(self)@.contains_key(h) ==> final(self)@[h] == old(self)@[h],
    {
        let ghost m = self@;
        let mut i: usize = 0;
        while i < self.blocks.len()
            invariant
                self.wf(),
                self.limit == old(self).limit,
                0 <= i <= self.blocks@.len(),
                forall|j: int| 0 <= j < i ==> (#[trigger] self.blocks@[j]).block.header.number >= n,
                forall|h: B256| #[trigger] self@.contains_key(h) ==> m.contains_key(h) && self@[h] == m[h],
                forall|h: B256| #[trigger] m.contains_key(h) && !self@.contains_key(h) ==> m[h].block.header.number < n,
            decreases self.blocks@.len() - i, self.blocks@.len(),
        {
            if self.blocks[i].block.header.number < n {
                let ghost s = self.blocks@;
                let ghost prev = self@;
                proof {
                    lemma_to_map_remove(s, block_key(), i as int);
                    lemma_to_map_index(s, block_key(), i as int);
                }
                self.blocks.remove(i);
                proof {
                    assert(self@ == prev.remove(s[i as int].block.header.hash));
                    assert forall|h: B256| #[trigger] self@.contains_key(h) implies m.contains_key(h) && self@[h] == m[h] by {
                        assert(prev.contains_key(h));
                    }
                    assert forall|h: B256| #[trigger] m.contains_key(h) && !self@.contains_key(h) implies m[h].block.header.number < n by {
                        if prev.contains_key(h) {
                            assert(h == s[i as int].block.header.hash);
                        }
                    }
                    assert forall|k: int| 0 <= k < self.blocks@.len() implies (#[trigger] self.blocks@[k]).wf() by {
                        if k < i { assert(self.blocks@[k] == s[k]); } else { assert(self.blocks@[k] == s[k + 1]); }
                    }
                    assert forall|j: int| 0 <= j < i implies (#[trigger] self.blocks@[j]).block.header.number >= n by {
                        assert(self.blocks@[j] == s[j]);
                    }
                }
            } else {
                i = i + 1;
            }
        }
        proof {
            assert forall|h: B256| #[trigger] self@.contains_key(h) implies self@[h].block.header.number >= n by {
                lemma_to_map_contains(self.blocks@, block_key(), h);
                let k = choose|k: int| 0 <= k < self.blocks@.len() && block_key()(#[trigger] self.blocks@[k]) == h;
                lemma_to_map_index(self.blocks@, block_key(), k);
            }
        }
    }
}

} // verus!
