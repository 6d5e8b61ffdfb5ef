//! Bounded cache of headers known to be invalid.
use vstd::prelude::*;
use crate::keyed::{
    keys_unique, lemma_to_map_contains, lemma_to_map_index, lemma_to_map_len, lemma_to_map_remove, lemma_unique_push, to_map,
};
use crate::primitives::{B256, SealedHeader};

verus! {

/// How many invalid headers the cache keeps at most.
pub const INVALID_HEADER_CACHE_CAPACITY: usize = 512;

/// The key of a cached header: its hash.
pub open spec fn header_key() -> spec_fn(SealedHeader) -> B256 {
    |h: SealedHeader| h.hash
}

/// The record cached for `head` when it is invalid because `ancestor` is: the
/// ancestor's header, under the hash `head`, with its parent link on `ancestor`.
pub open spec fn linked_to_ancestor(head: B256, ancestor: SealedHeader) -> SealedHeader {
    SealedHeader { hash: head, parent_hash: ancestor.hash, ..ancestor }
}

/// Maps the hash of a block known to be invalid to a header-shaped record of it.
///
/// Records are kept in order of their last use, an insertion or a hit of `get`;
/// when the cache is full, a new record evicts the least recently used one.
#[derive(Debug)]
pub struct InvalidHeaderCache {
    entries: Vec<SealedHeader>,
}

impl View for InvalidHeaderCache {
    type V = Map<B256, SealedHeader>;

    closed spec fn view(&self) -> Map<B256, SealedHeader> {
        to_map(self.entries@, header_key())
    }
}

impl InvalidHeaderCache {
    /// The records are keyed uniquely and within capacity.
    pub closed spec fn wf(&self) -> bool {
        keys_unique(self.entries@, header_key())
            && self.entries@.len() <= INVALID_HEADER_CACHE_CAPACITY
    }

    /// How many records the cache holds.
    pub closed spec fn count(&self) -> nat {
        self.entries@.len()
    }

    /// The hash whose record was used longest ago.
    pub closed spec fn oldest(&self) -> B256 {
        self.entries@[0].hash
    }

    /// The cache's map holds one key per record.
    pub proof fn lemma_view_len(&self)
        requires
            self.wf(),
        ensures
            self@.dom().finite(),
            self@.dom().len() == self.count(),
    {
        lemma_to_map_len(self.entries@, header_key());
    }

    /// An empty cache.
    pub fn new() -> (r: InvalidHeaderCache)
        ensures
            r.wf(),
            r@ == Map::<B256, SealedHeader>::empty(),
            r.count() == 0,
    {
        let r = InvalidHeaderCache { entries: Vec::new() };
        assert(r@ =~= Map::<B256, SealedHeader>::empty());
        r
    }

    /// How many records the cache holds.
    pub fn len(&self) -> (r: usize)
        ensures
            r == self.count(),
    {
        self.entries.len()
    }

    fn position(&self, hash: B256) -> (r: Option<usize>)
        requires
            self.wf(),
        ensures
            r is None <==> !self@.contains_key(hash),
            r matches Some(i) ==> i < self.entries@.len() && self.entries@[i as int].hash == hash,
    {
        let mut i: usize = 0;
        while i < self.entries.len()
            invariant
                self.wf(),
                0 <= i <= self.entries@.len(),
                forall|j: int| 0 <= j < i ==> (#[trigger] self.entries@[j]).hash != hash,
            decreases self.entries@.len() - i,
        {
            if self.entries[i].hash == hash {
                proof { lemma_to_map_index(self.entries@, header_key(), i as int); }
                return Some(i);
            }
            i = i + 1;
        }
        proof {
            lemma_to_map_contains(self.entries@, header_key(), hash);
            if self@.contains_key(hash) {
                let k = choose|k: int| 0 <= k < self.entries@.len() && header_key()(#[trigger] self.entries@[k]) == hash;
            }
        }
        None
    }

    /// The record of `hash`, if the cache holds one, without refreshing its recency.
    pub fn peek(&self, hash: B256) -> (r: Option<SealedHeader>)
        requires
            self.wf(),
        ensures
            r == (if self@.contains_key(hash) { Some(self@[hash]) } else { None::<SealedHeader> }),
    {
        match self.position(hash) {
            Some(i) => {
                proof { lemma_to_map_index(self.entries@, header_key(), i as int); }
                Some(self.entries[i])
            },
            None => None,
        }
    }

    /// The record of `hash`, if the cache holds one; a hit makes the record the
    /// most recently used, the last to be evicted.
    pub fn get(&mut self, hash: B256) -> (r: Option<SealedHeader>)
        requires
            old(self).wf(),
        ensures
            final(self).wf(),
            r == (if old(self)@.contains_key(hash) { Some(old(self)@[hash]) } else { None::<SealedHeader> }),
            final(self)@ == old(self)@,
            final(self).count() == old(self).count(),
            r is None ==> *final(self) == *old(self),
    {
        let ghost s = self.entries@;
        match self.position(hash) {
            Some(i) => {
                let header = self.entries[i];
                proof {
                    lemma_to_map_remove(s, header_key(), i as int);
                    lemma_to_map_index(s, header_key(), i as int);
                }
                self.entries.remove(i);
                proof { lemma_unique_push(self.entries@, header_key(), header); }
                self.entries.push(header);
                proof {
                    assert(to_map(s, header_key()).remove(hash).insert(hash, header) =~= to_map(s, header_key()));
                }
                Some(header)
            },
            None => None,
        }
    }

    /// Whether the cache holds a record of `hash`.
    pub fn contains(&self, hash: B256) -> (r: bool)
        requires
            self.wf(),
        ensures
            r <==> self@.contains_key(hash),
    {
        self.position(hash).is_some()
    }

    /// Records `header` as invalid, under its own hash.
    pub fn insert(&mut self, header: SealedHeader)
        requires
            old(self).wf(),
        ensures
            final(self).wf(),
            old(self)@.contains_key(header.hash) || old(self).count() < INVALID_HEADER_CACHE_CAPACITY
                ==> final(self)@ == old(self)@.insert(header.hash, header),
            !old(self)@.contains_key(header.hash) && old(self).count() >= INVALID_HEADER_CACHE_CAPACITY
                ==> old(self)@.contains_key(old(self).oldest()) && final(self)@ == old(self)@.remove(
                old(self).oldest(),
            ).insert(header.hash, header),
            old(self)@.contains_key(header.hash) ==> final(self).count() == old(self).count(),
            !old(self)@.contains_key(header.hash) && old(self).count() < INVALID_HEADER_CACHE_CAPACITY
                ==> final(self).count() == old(self).count() + 1,
    {
        let ghost s = self.entries@;
        match self.position(header.hash) {
            Some(i) => {
                proof { lemma_to_map_remove(s, header_key(), i as int); }
                self.entries.remove(i);
                proof {
                    assert(self@ == to_map(s, header_key()).remove(header.hash));
                    lemma_unique_push(self.entries@, header_key(), header);
                    assert(to_map(s, header_key()).remove(header.hash).insert(header.hash, header)
                        =~= to_map(s, header_key()).insert(header.hash, header));
                }
                self.entries.push(header);
            },
            None => {
                if self.entries.len() >= INVALID_HEADER_CACHE_CAPACITY {
                    proof {
                        lemma_to_map_remove(s, header_key(), 0);
                        lemma_to_map_index(s, header_key(), 0);
                    }
                    self.entries.remove(0);
                }
                proof { lemma_unique_push(self.entries@, header_key(), header); }
                self.entries.push(header);
            },
        }
    }

    /// Marks `head` invalid because its ancestor `ancestor` is: records
    /// [`linked_to_ancestor`] under `head`, unless `head` already has a record.
    pub fn insert_with_invalid_ancestor(&mut self, head: B256, ancestor: SealedHeader)
        requires
            old(self).wf(),
        ensures
            final(self).wf(),
            old(self)@.contains_key(head) ==> final(self)@ == old(self)@ && final(self).count() == old(self).count(),
            !old(self)@.contains_key(head) && old(self).count() < INVALID_HEADER_CACHE_CAPACITY
                ==> final(self)@ == old(self)@.insert(head, linked_to_ancestor(head, ancestor))
                && final(self).count() == old(self).count() + 1,
            !old(self)@.contains_key(head) && old(self).count() >= INVALID_HEADER_CACHE_CAPACITY
                ==> old(self)@.contains_key(old(self).oldest()) && final(self)@ == old(self)@.remove(
                old(self).oldest(),
            ).insert(head, linked_to_ancestor(head, ancestor)),
    {
        if !self.contains(head) {
            let record = SealedHeader { hash: head, parent_hash: ancestor.hash, ..ancestor };
            self.insert(record);
        }
    }
}

} // verus!
