//! Tile caching for efficient raster access
//!
//! The cache maps `(ifd_index, tile_index)` to the bytes of a decompressed
//! tile. It holds at most `max_tiles` tiles: before a tile is put in, keys are
//! taken from the front of a queue of recently used keys and dropped from the
//! map until there is room. A key enters the queue whenever its tile is put or
//! found, so the queue may hold a key more than once: what leaves first is
//! old, not always the oldest.

use vstd::prelude::*;
use std::sync::Arc;
use dashmap::DashMap;
use crossbeam::queue::SegQueue;

verus! {

/// `dashmap::DashMap`, the concurrent hash map that holds the tiles. The
/// verifier sees nothing inside it: what it holds is `map_entries`.
#[verifier::external_type_specification]
#[verifier::external_body]
#[verifier::reject_recursive_types(K)]
#[verifier::reject_recursive_types(V)]
#[verifier::reject_recursive_types(S)]
pub struct ExDashMap<K, V, S>(DashMap<K, V, S>);

/// `crossbeam::queue::SegQueue`, the queue of recently used keys. The
/// verifier sees nothing inside it: what it holds is `queue_items`.
#[verifier::external_type_specification]
#[verifier::external_body]
#[verifier::reject_recursive_types(T)]
pub struct ExSegQueue<T>(SegQueue<T>);

/// The tiles that a map holds, by key.
pub uninterp spec fn map_entries(m: DashMap<(usize, usize), Arc<Vec<u8>>>) -> Map<
    (usize, usize),
    Seq<u8>,
>;

/// The keys that a queue holds, the one that leaves first at the front.
pub uninterp spec fn queue_items(q: SegQueue<(usize, usize)>) -> Seq<(usize, usize)>;

/// `DashMap::new`: a map without entries.
#[verifier::external_body]
fn map_new() -> (m: DashMap<(usize, usize), Arc<Vec<u8>>>)
    ensures
        map_entries(m) == (Map::<(usize, usize), Seq<u8>>::empty()),
{
    DashMap::new()
}

/// `DashMap::get`, and a clone of the `Arc` that the entry holds: the value
/// under `key`, where there is one.
#[verifier::external_body]
fn map_get(m: &DashMap<(usize, usize), Arc<Vec<u8>>>, key: (usize, usize)) -> (r: Option<
    Arc<Vec<u8>>,
>)
    ensures
        match r {
            Some(v) => map_entries(*m).contains_key(key) && v@ == map_entries(*m)[key],
            None => !map_entries(*m).contains_key(key),
        },
{
    match m.get(&key) {
        Some(entry) => Some(Arc::clone(entry.value())),
        None => None,
    }
}

/// `DashMap::insert`: afterwards `key` maps to `value`, and every other key
/// to what it mapped to before.
#[verifier::external_body]
fn map_insert(m: &mut DashMap<(usize, usize), Arc<Vec<u8>>>, key: (usize, usize), value: Vec<u8>)
    ensures
        map_entries(*final(m)) == map_entries(*old(m)).insert(key, value@),
{
    m.insert(key, Arc::new(value));
}

/// `DashMap::remove`: afterwards `key` has no entry, and every other key
/// maps to what it mapped to before.
#[verifier::external_body]
fn map_remove(m: &mut DashMap<(usize, usize), Arc<Vec<u8>>>, key: (usize, usize))
    ensures
        map_entries(*final(m)) == map_entries(*old(m)).remove(key),
{
    m.remove(&key);
}

/// `DashMap::len`: the number of entries, which is finite.
#[verifier::external_body]
fn map_len(m: &DashMap<(usize, usize), Arc<Vec<u8>>>) -> (n: usize)
    ensures
        TileCache::counts(map_entries(*m), n),
{
    m.len()
}

/// `DashMap::clear`: afterwards the map has no entries.
#[verifier::external_body]
fn map_clear(m: &mut DashMap<(usize, usize), Arc<Vec<u8>>>)
    ensures
        map_entries(*final(m)) == (Map::<(usize, usize), Seq<u8>>::empty()),
{
    m.clear();
}

/// `DashMap::iter`, each entry handed out as its key and the length of its
/// value: every entry once, in the order in which the map is walked.
#[verifier::external_body]
fn map_sizes(m: &DashMap<(usize, usize), Arc<Vec<u8>>>) -> (r: Vec<((usize, usize), usize)>)
    ensures
        TileCache::lists_sizes(map_entries(*m), r@),
{
    let mut sizes = Vec::new();
    for entry in m.iter() {
        sizes.push((*entry.key(), entry.value().len()));
    }
    sizes
}

/// `SegQueue::new`: a queue without items.
#[verifier::external_body]
fn queue_new() -> (q: SegQueue<(usize, usize)>)
    ensures
        queue_items(q) == Seq::<(usize, usize)>::empty(),
{
    SegQueue::new()
}

/// `SegQueue::push`: the key goes to the back of the queue.
#[verifier::external_body]
fn queue_push(q: &mut SegQueue<(usize, usize)>, key: (usize, usize))
    ensures
        queue_items(*final(q)) == queue_items(*old(q)).push(key),
{
    q.push(key);
}

/// `SegQueue::pop`: the key at the front leaves the queue; `None` where the
/// queue is empty.
#[verifier::external_body]
fn queue_pop(q: &mut SegQueue<(usize, usize)>) -> (r: Option<(usize, usize)>)
    ensures
        match r {
            Some(key) => queue_items(*old(q)).len() > 0 && key == queue_items(*old(q))[0]
                && queue_items(*final(q)) == queue_items(*old(q)).skip(1),
            None => queue_items(*old(q)).len() == 0 && queue_items(*final(q)) == queue_items(
                *old(q),
            ),
        },
{
    q.pop()
}

/// Cache statistics
#[derive(Debug, Clone)]
pub struct CacheStats {
    /// Number of tiles currently in cache
    pub tile_count: usize,
    /// Total bytes used by cache
    pub total_bytes: usize,
    /// Maximum number of tiles
    pub max_tiles: usize,
}

/// Bounded tile cache for storing decompressed tile data
pub struct TileCache {
    cache: DashMap<(usize, usize), Arc<Vec<u8>>>,
    lru: SegQueue<(usize, usize)>,
    max_tiles: usize,
}

impl TileCache {
    /// The tiles in the cache, by `(ifd_index, tile_index)`.
    pub closed spec fn entries(&self) -> Map<(usize, usize), Seq<u8>> {
        map_entries(self.cache)
    }

    /// The queue of recently used keys, the one that leaves first at the
    /// front.
    pub closed spec fn recency(&self) -> Seq<(usize, usize)> {
        queue_items(self.lru)
    }

    /// The most tiles that the cache holds.
    pub closed spec fn limit(&self) -> nat {
        self.max_tiles as nat
    }

    /// The cache is within its bound, and each key of a tile is in the
    /// queue.
    pub open spec fn wf(&self) -> bool {
        &&& self.limit() >= 1
        &&& self.entries().dom().finite()
        &&& self.entries().len() <= self.limit()
        &&& forall|key: (usize, usize)| #[trigger]
            self.entries().contains_key(key) ==> self.recency().contains(key)
    }

    /// What making room does: while the map holds `limit` tiles or more and
    /// the queue is not empty, the key at the front of the queue leaves it and
    /// is dropped from the map.
    pub open spec fn evicted(
        entries: Map<(usize, usize), Seq<u8>>,
        queue: Seq<(usize, usize)>,
        limit: nat,
    ) -> (Map<(usize, usize), Seq<u8>>, Seq<(usize, usize)>)
        decreases queue.len(),
    {
        if entries.len() >= limit && queue.len() > 0 {
            Self::evicted(entries.remove(queue[0]), queue.skip(1), limit)
        } else {
            (entries, queue)
        }
    }

    /// The tiles and the queue after `data` is put under `key`: room is
    /// made, the tile goes into the map and its key to the back of the queue.
    pub open spec fn after_put(
        entries: Map<(usize, usize), Seq<u8>>,
        queue: Seq<(usize, usize)>,
        limit: nat,
        key: (usize, usize),
        data: Seq<u8>,
    ) -> (Map<(usize, usize), Seq<u8>>, Seq<(usize, usize)>) {
        (
            Self::evicted(entries, queue, limit).0.insert(key, data),
            Self::evicted(entries, queue, limit).1.push(key),
        )
    }

    /// Making room only drops tiles: what is left was there before, with the
    /// same bytes.
    pub proof fn lemma_evicted_keeps(
        entries: Map<(usize, usize), Seq<u8>>,
        queue: Seq<(usize, usize)>,
        limit: nat,
    )
        ensures
            forall|key: (usize, usize)| #[trigger]
                Self::evicted(entries, queue, limit).0.contains_key(key) ==> entries.contains_key(
                    key,
                ) && Self::evicted(entries, queue, limit).0[key] == entries[key],
        decreases queue.len(),
    {
        if entries.len() >= limit && queue.len() > 0 {
            let fewer = entries.remove(queue[0]);
            Self::lemma_evicted_keeps(fewer, queue.skip(1), limit);
            assert forall|key: (usize, usize)| #[trigger]
                Self::evicted(entries, queue, limit).0.contains_key(
                    key,
                ) implies entries.contains_key(key) && Self::evicted(entries, queue, limit).0[key]
                == entries[key] by {
                assert(Self::evicted(fewer, queue.skip(1), limit).0.contains_key(key));
                assert(fewer.contains_key(key));
            }
        }
    }

    /// `n` is the number of tiles of a map, which holds finitely many.
    pub open spec fn counts(entries: Map<(usize, usize), Seq<u8>>, n: usize) -> bool {
        entries.dom().finite() && n == entries.len()
    }

    /// A listing of keys and sizes that names each tile of the map once,
    /// with the length of its bytes.
    pub open spec fn lists_sizes(
        entries: Map<(usize, usize), Seq<u8>>,
        listing: Seq<((usize, usize), usize)>,
    ) -> bool {
        &&& entries.dom().finite()
        &&& listing.len() == entries.len()
        &&& forall|i: int|
            0 <= i < listing.len() ==> entries.contains_key((#[trigger] listing[i]).0)
                && listing[i].1 == entries[listing[i].0].len()
        &&& forall|i: int, j: int|
            0 <= i < j < listing.len() ==> (#[trigger] listing[i]).0 != (#[trigger] listing[j]).0
    }

    /// The sum of the sizes of a listing.
    pub open spec fn total_size(listing: Seq<((usize, usize), usize)>) -> nat
        decreases listing.len(),
    {
        if listing.len() == 0 {
            0
        } else {
            Self::total_size(listing.drop_last()) + listing.last().1 as nat
        }
    }

    /// Creates a new tile cache that holds up to `max_tiles` tiles, and at
    /// least one.
    pub fn new(max_tiles: usize) -> (c: Self)
        ensures
            c.wf(),
            c.entries() == (Map::<(usize, usize), Seq<u8>>::empty()),
            c.recency() == Seq::<(usize, usize)>::empty(),
            c.limit() == if max_tiles >= 1 {
                max_tiles as nat
            } else {
                1
            },
    {
        Self {
            cache: map_new(),
            lru: queue_new(),
            max_tiles: if max_tiles >= 1 {
                max_tiles
            } else {
                1
            },
        }
    }

    /// Gets a tile from the cache. A key that is found goes to the back of
    /// the queue once more.
    pub fn get(&mut self, ifd_index: usize, tile_index: usize) -> (r: Option<Arc<Vec<u8>>>)
        ensures
            final(self).entries() == old(self).entries(),
            final(self).limit() == old(self).limit(),
            old(self).wf() ==> final(self).wf(),
            match r {
                Some(data) => {
                    &&& old(self).entries().contains_key((ifd_index, tile_index))
                    &&& data@ == old(self).entries()[(ifd_index, tile_index)]
                    &&& final(self).recency() == old(self).recency().push((ifd_index, tile_index))
                },
                None => {
                    &&& !old(self).entries().contains_key((ifd_index, tile_index))
                    &&& final(self).recency() == old(self).recency()
                },
            },
    {
        let key = (ifd_index, tile_index);
        match map_get(&self.cache, key) {
            Some(data) => {
                queue_push(&mut self.lru, key);
                proof {
                    let before = old(self).recency();
                    assert forall|k: (usize, usize)| #[trigger]
                        before.contains(k) implies self.recency().contains(k) by {
                        let i = choose|i: int| 0 <= i < before.len() && before[i] == k;
                        assert(self.recency()[i] == k);
                    }
                }
                Some(data)
            },
            None => None,
        }
    }

    /// Puts a tile into the cache, after making room for it: see `evicted`.
    /// Afterwards the cache holds the tile and is within its bound.
    pub fn put(&mut self, ifd_index: usize, tile_index: usize, data: Vec<u8>)
        requires
            old(self).wf(),
        ensures
            final(self).wf(),
            final(self).limit() == old(self).limit(),
            final(self).entries().len() <= final(self).limit(),
            final(self).entries() == Self::evicted(
                old(self).entries(),
                old(self).recency(),
                old(self).limit(),
            ).0.insert((ifd_index, tile_index), data@),
            final(self).recency() == Self::evicted(
                old(self).entries(),
                old(self).recency(),
                old(self).limit(),
            ).1.push((ifd_index, tile_index)),
    {
        let key = (ifd_index, tile_index);
        loop
            invariant
                self.limit() == old(self).limit(),
                self.limit() >= 1,
                self.entries().dom().finite(),
                forall|k: (usize, usize)| #[trigger]
                    self.entries().contains_key(k) ==> self.recency().contains(k),
                Self::evicted(self.entries(), self.recency(), self.limit()) == Self::evicted(
                    old(self).entries(),
                    old(self).recency(),
                    old(self).limit(),
                ),
            ensures
                self.entries().len() < self.limit(),
                (self.entries(), self.recency()) == Self::evicted(
                    old(self).entries(),
                    old(self).recency(),
                    old(self).limit(),
                ),
            decreases self.recency().len(),
        {
            if map_len(&self.cache) < self.max_tiles {
                break ;
            }
            let ghost entries = self.entries();
            let ghost queue = self.recency();
            match queue_pop(&mut self.lru) {
                Some(old_key) => {
                    map_remove(&mut self.cache, old_key);
                    proof {
                        assert forall|k: (usize, usize)| #[trigger]
                            self.entries().contains_key(k) implies self.recency().contains(k) by {
                            assert(entries.contains_key(k));
                            let i = choose|i: int| 0 <= i < queue.len() && queue[i] == k;
                            assert(i > 0);
                            assert(self.recency()[i - 1] == k);
                        }
                    }
                },
                None => {
                    proof {
                        // an empty queue means an empty map, which is below any limit
                        if entries.len() > 0 {
                            let k = entries.dom().choose();
                            assert(entries.contains_key(k));
                            assert(queue.contains(k));
                        }
                        assert(false);
                    }
                    break ;
                },
            }
        }
        let ghost room = self.entries();
        let ghost queue = self.recency();
        map_insert(&mut self.cache, key, data);
        queue_push(&mut self.lru, key);
        proof {
            assert(self.entries().dom() =~= room.dom().insert(key));
            assert forall|k: (usize, usize)| #[trigger]
                self.entries().contains_key(k) implies self.recency().contains(k) by {
                if k == key {
                    assert(self.recency()[queue.len() as int] == k);
                } else {
                    assert(room.contains_key(k));
                    let i = choose|i: int| 0 <= i < queue.len() && queue[i] == k;
                    assert(self.recency()[i] == k);
                }
            }
        }
    }

    /// Clears the cache
    pub fn clear(&mut self)
        ensures
            final(self).limit() == old(self).limit(),
            final(self).entries() == (Map::<(usize, usize), Seq<u8>>::empty()),
            final(self).recency() == Seq::<(usize, usize)>::empty(),
            old(self).limit() >= 1 ==> final(self).wf(),
    {
        map_clear(&mut self.cache);
        loop
            invariant
                self.limit() == old(self).limit(),
                self.entries() == (Map::<(usize, usize), Seq<u8>>::empty()),
            ensures
                self.recency().len() == 0,
            decreases self.recency().len(),
        {
            if queue_pop(&mut self.lru).is_none() {
                break ;
            }
        }
        assert(self.recency() =~= Seq::<(usize, usize)>::empty());
    }

    /// Returns the current number of cached tiles
    pub fn len(&self) -> (n: usize)
        ensures
            n == self.entries().len(),
    {
        map_len(&self.cache)
    }

    /// Returns whether the cache is empty
    pub fn is_empty(&self) -> (b: bool)
        ensures
            b == (self.entries().len() == 0),
            b ==> self.entries() == (Map::<(usize, usize), Seq<u8>>::empty()),
    {
        let n = map_len(&self.cache);
        proof {
            if n == 0 {
                self.entries().dom().lemma_len0_is_empty();
                assert(self.entries() =~= (Map::<(usize, usize), Seq<u8>>::empty()));
            }
        }
        n == 0
    }

    /// Returns cache statistics: the number of tiles, the bound, and the
    /// bytes that the tiles take together (at most `usize::MAX`).
    pub fn stats(&self) -> (s: CacheStats)
        ensures
            s.tile_count == self.entries().len(),
            s.max_tiles == self.limit(),
            exists|listing: Seq<((usize, usize), usize)>| #[trigger]
                Self::lists_sizes(self.entries(), listing) && s.total_bytes == if Self::total_size(
                    listing,
                ) <= usize::MAX {
                    Self::total_size(listing)
                } else {
                    usize::MAX as nat
                },
    {
        let sizes = map_sizes(&self.cache);
        let mut total_bytes: usize = 0;
        let mut i: usize = 0;
        while i < sizes.len()
            invariant
                i <= sizes@.len(),
                total_bytes == if Self::total_size(sizes@.subrange(0, i as int)) <= usize::MAX {
                    Self::total_size(sizes@.subrange(0, i as int))
                } else {
                    usize::MAX as nat
                },
            decreases sizes@.len() - i,
        {
            proof {
                let next = sizes@.subrange(0, i + 1);
                assert(next.drop_last() =~= sizes@.subrange(0, i as int));
                assert(next.last() == sizes@[i as int]);
            }
            total_bytes = total_bytes.saturating_add(sizes[i].1);
            i = i + 1;
        }
        proof {
            assert(sizes@.subrange(0, i as int) =~= sizes@);
            assert(Self::lists_sizes(self.entries(), sizes@));
        }
        CacheStats { tile_count: sizes.len(), total_bytes, max_tiles: self.max_tiles }
    }
}

impl Default for TileCache {
    fn default() -> (c: Self)
        ensures
            c.wf(),
            c.entries() == (Map::<(usize, usize), Seq<u8>>::empty()),
            c.limit() == 256,
    {
        Self::new(256)
    }
}

} // verus!
