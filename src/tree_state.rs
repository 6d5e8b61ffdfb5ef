//! The in-memory tree of executed blocks, indexed by hash and by number.
use vstd::prelude::*;
use crate::execution::ExecutedBlock;
use crate::primitives::{B256, BlockNumber, SealedBlock};

verus! {

/// Whether one of the blocks of `s` has hash `h`.
pub open spec fn has_hash(s: Seq<ExecutedBlock>, h: B256) -> bool {
    exists|i: int| 0 <= i < s.len() && (#[trigger] s[i]).spec_hash() == h
}

/// The block of `s` with hash `h`; meaningful when `has_hash(s, h)`.
pub open spec fn block_with_hash(s: Seq<ExecutedBlock>, h: B256) -> ExecutedBlock {
    s[choose|i: int| 0 <= i < s.len() && (#[trigger] s[i]).spec_hash() == h]
}

/// With unique hashes, the block at a position is the block with its hash.
pub proof fn lemma_block_with_hash(s: Seq<ExecutedBlock>, i: int)
    requires
        unique_hashes(s),
        0 <= i < s.len(),
    ensures
        has_hash(s, s[i].spec_hash()),
        block_with_hash(s, s[i].spec_hash()) == s[i],
{
    let h = s[i].spec_hash();
    assert(has_hash(s, h));
    let j = choose|j: int| 0 <= j < s.len() && (#[trigger] s[j]).spec_hash() == h;
}

/// No two blocks of `s` share a hash.
pub open spec fn unique_hashes(s: Seq<ExecutedBlock>) -> bool {
    forall|i: int, j: int|
        0 <= i < s.len() && 0 <= j < s.len() && i != j ==> (#[trigger] s[i]).spec_hash()
            != (#[trigger] s[j]).spec_hash()
}

/// The blocks of `s` at height `n`, in the order they were inserted.
pub open spec fn blocks_at(s: Seq<ExecutedBlock>, n: BlockNumber) -> Seq<ExecutedBlock> {
    s.filter(|b: ExecutedBlock| b.spec_number() == n)
}

/// The blocks of `s` at height `n` or above, in the order they were inserted.
pub open spec fn blocks_from(s: Seq<ExecutedBlock>, n: BlockNumber) -> Seq<ExecutedBlock> {
    s.filter(at_or_above(n))
}

/// Whether a block stands at height `n` or above.
pub open spec fn at_or_above(n: BlockNumber) -> spec_fn(ExecutedBlock) -> bool {
    |b: ExecutedBlock| b.spec_number() >= n
}

/// Keeps track of the executed blocks of the tree.
///
/// The blocks are held once, in order of insertion; the index by hash and the
/// index by number are both views of that sequence.
#[derive(Debug)]
pub struct TreeState {
    blocks_by_hash: Vec<ExecutedBlock>,
}

impl View for TreeState {
    type V = Seq<ExecutedBlock>;

    closed spec fn view(&self) -> Seq<ExecutedBlock> {
        self.blocks_by_hash@
    }
}

impl TreeState {
    /// Each hash is stored at most once.
    pub open spec fn wf(&self) -> bool {
        unique_hashes(self@)
    }

    /// An empty tree.
    pub fn new() -> (r: TreeState)
        ensures
            r@ == Seq::<ExecutedBlock>::empty(),
            r.wf(),
    {
        TreeState { blocks_by_hash: Vec::new() }
    }

    /// Number of blocks in the tree.
    pub fn len(&self) -> (r: usize)
        ensures
            r == self@.len(),
    {
        self.blocks_by_hash.len()
    }

    /// Position of the block with hash `hash`, if the tree has it.
    fn position(&self, hash: B256) -> (r: Option<usize>)
        ensures
            r is None <==> !has_hash(self@, hash),
            r matches Some(i) ==> i < self@.len() && self@[i as int].spec_hash() == hash,
    {
        let mut i: usize = 0;
        while i < self.blocks_by_hash.len()
            invariant
                0 <= i <= self@.len(),
                self@ == self.blocks_by_hash@,
                forall|j: int| 0 <= j < i ==> (#[trigger] self@[j]).spec_hash() != hash,
            decreases self@.len() - i,
        {
            if self.blocks_by_hash[i].block.header.hash == hash {
                return Some(i);
            }
            i = i + 1;
        }
        None
    }

    /// Whether the tree holds a block with hash `hash`.
    pub fn contains(&self, hash: B256) -> (r: bool)
        ensures
            r <==> has_hash(self@, hash),
    {
        self.position(hash).is_some()
    }

    /// The executed block with hash `hash`, if the tree holds it.
    pub fn executed_block_by_hash(&self, hash: B256) -> (r: Option<&ExecutedBlock>)
        requires
            self.wf(),
        ensures
            r is None <==> !has_hash(self@, hash),
            r matches Some(b) ==> b.spec_hash() == hash && *b == block_with_hash(self@, hash),
    {
        match self.position(hash) {
            Some(i) => {
                proof { lemma_block_with_hash(self@, i as int); }
                Some(&self.blocks_by_hash[i])
            },
            None => None,
        }
    }

    /// The block with hash `hash`, if the tree holds it.
    pub fn block_by_hash(&self, hash: B256) -> (r: Option<&SealedBlock>)
        requires
            self.wf(),
        ensures
            r is None <==> !has_hash(self@, hash),
            r matches Some(b) ==> b.spec_hash() == hash && *b == block_with_hash(self@, hash).block,
    {
        match self.position(hash) {
            Some(i) => {
                proof { lemma_block_with_hash(self@, i as int); }
                Some(&self.blocks_by_hash[i].block)
            },
            None => None,
        }
    }

    /// The hashes of the blocks at height `number`, in order of insertion.
    pub fn block_hashes_by_number(&self, number: BlockNumber) -> (r: Vec<B256>)
        ensures
            r@ == blocks_at(self@, number).map_values(|b: ExecutedBlock| b.spec_hash()),
    {
        let mut r: Vec<B256> = Vec::new();
        let mut i: usize = 0;
        while i < self.blocks_by_hash.len()
            invariant
                0 <= i <= self@.len(),
                self@ == self.blocks_by_hash@,
                r@ == blocks_at(self@.take(i as int), number).map_values(|b: ExecutedBlock| b.spec_hash()),
            decreases self@.len() - i,
        {
            let b = &self.blocks_by_hash[i];
            proof {
                assert(self@.take(i as int + 1) == self@.take(i as int).push(self@[i as int]));
                lemma_filter_push(self@.take(i as int), self@[i as int], |b: ExecutedBlock| b.spec_number() == number);
            }
            if b.block.header.number == number {
                r.push(b.block.header.hash);
                proof {
                    assert(r@ =~= blocks_at(self@.take(i as int + 1), number).map_values(|b: ExecutedBlock| b.spec_hash()));
                }
            }
            i = i + 1;
        }
        assert(self@.take(i as int) == self@);
        r
    }

    /// Insert executed block into the state.
    pub fn insert_executed(&mut self, executed: ExecutedBlock)
        requires
            old(self).wf(),
            !has_hash(old(self)@, executed.spec_hash()),
        ensures
            final(self).wf(),
            final(self)@ == old(self)@.push(executed),
    {
        self.blocks_by_hash.push(executed);
    }

    /// Remove blocks before specified block number.
    pub fn remove_before(&mut self, block_number: BlockNumber)
        requires
            old(self).wf(),
        ensures
            final(self).wf(),
            final(self)@ == blocks_from(old(self)@, block_number),
    {
        let ghost s = self@;
        
        let mut rest: Vec<ExecutedBlock> = Vec::new();
        std::mem::swap(&mut rest, &mut self.blocks_by_hash);
        let mut kept: Vec<ExecutedBlock> = Vec::new();
        let ghost mut i: int = 0;
        while rest.len() > 0
            invariant
                0 <= i <= s.len(),
                unique_hashes(s),
                rest@ == s.subrange(i, s.len() as int),
                kept@ == s.subrange(0, i).filter(at_or_above(block_number)),
                unique_hashes(kept@),
                forall|k: int|
                    0 <= k < kept@.len() ==> exists|j: int|
                        0 <= j < i && (#[trigger] s[j]).spec_hash() == (#[trigger] kept@[k]).spec_hash(),
            decreases rest@.len(),
        {
            let b = rest.remove(0);
            proof {
                assert(b == s[i]);
                assert(s.subrange(0, i + 1) == s.subrange(0, i).push(s[i]));
                lemma_filter_push(s.subrange(0, i), s[i], at_or_above(block_number));
                assert(at_or_above(block_number)(s[i]) == (s[i].spec_number() >= block_number));
            }
            if b.block.header.number >= block_number {
                proof {
                    assert forall|k: int| 0 <= k < kept@.len() implies (#[trigger] kept@[k]).spec_hash()
                        != s[i].spec_hash() by {
                        let j = choose|j: int| 0 <= j < i && (#[trigger] s[j]).spec_hash() == kept@[k].spec_hash();
                    }
                }
                kept.push(b);
                proof {
                    assert forall|k: int| 0 <= k < kept@.len() implies exists|j: int|
                        0 <= j < i + 1 && (#[trigger] s[j]).spec_hash() == (#[trigger] kept@[k]).spec_hash() by {
                        if k < kept@.len() - 1 {
                            let j = choose|j: int| 0 <= j < i && (#[trigger] s[j]).spec_hash() == kept@[k].spec_hash();
                            assert(s[j].spec_hash() == kept@[k].spec_hash());
                        } else {
                            assert(s[i].spec_hash() == kept@[k].spec_hash());
                        }
                    }
                }
            }
            proof { i = i + 1; }
        }
        proof { assert(s.subrange(0, s.len() as int) == s); }
        self.blocks_by_hash = kept;
    }
}

/// Inserting a block and then removing every block below a height that exceeds
/// the height of every stored block leaves the tree empty: no hash and no height
/// has a block left.
pub proof fn lemma_insert_then_remove_above_all_empties(t: TreeState, e: ExecutedBlock, n: BlockNumber)
    requires
        t.wf(),
        !has_hash(t@, e.spec_hash()),
        forall|i: int| 0 <= i < t@.len() ==> (#[trigger] t@[i]).spec_number() < n,
        e.spec_number() < n,
    ensures
        blocks_from(t@.push(e), n).len() == 0,
        forall|h: B256| !has_hash(blocks_from(t@.push(e), n), h),
        forall|k: BlockNumber| (#[trigger] blocks_at(blocks_from(t@.push(e), n), k)).len() == 0,
{
    let s = t@.push(e);
    assert forall|i: int| 0 <= i < s.len() implies !at_or_above(n)(#[trigger] s[i]) by {
        if i < t@.len() {
            assert(s[i] == t@[i]);
        }
    }
    assert(s.all(|x: ExecutedBlock| !at_or_above(n)(x)));
    s.lemma_all_neg_filter_empty(at_or_above(n));
    let r = blocks_from(s, n);
    assert forall|k: BlockNumber| (#[trigger] blocks_at(r, k)).len() == 0 by {
        r.lemma_filter_len(|b: ExecutedBlock| b.spec_number() == k);
        assert(r.filter(|b: ExecutedBlock| b.spec_number() == k).len() <= r.len());
    }
}

/// What filtering does with one more element at the end.
pub proof fn lemma_filter_push<A>(s: Seq<A>, x: A, p: spec_fn(A) -> bool)
    ensures
        s.push(x).filter(p) == (if p(x) { s.filter(p).push(x) } else { s.filter(p) }),
{
    reveal(Seq::filter);
    assert(s.push(x).drop_last() == s);
}

} // verus!
