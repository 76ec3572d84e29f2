use vstd::prelude::*;
use std::sync::Arc;
use crate::block_dev::{BlockDevice, BLOCK_SZ};

verus! {

/// How many blocks the cache manager keeps at most.
pub const BLOCK_CACHE_SIZE: usize = 16;

/// The in-memory copy of one block of a device. The bytes live on the heap,
/// where the device may fill them by DMA, and their number is fixed by type.
pub struct BlockCache<D: BlockDevice + ?Sized> {
    cache: Box<[u8; BLOCK_SZ]>,
    block_id: usize,
    block_device: Arc<D>,
    modified: bool,
}

/// `BLOCK_SZ` zero bytes: the buffer a block is read into.
pub open spec fn zero_block() -> Seq<u8> {
    Seq::new(BLOCK_SZ as nat, |i: int| 0u8)
}

/// The bytes from `offset` to the end of the block.
pub open spec fn tail_from(bytes: Seq<u8>, offset: int) -> Seq<u8> {
    bytes.subrange(offset, bytes.len() as int)
}

impl<D: BlockDevice + ?Sized> BlockCache<D> {
    /// The bytes held for the block (always `BLOCK_SZ` of them).
    pub closed spec fn bytes(&self) -> Seq<u8> {
        self.cache@
    }

    /// The number of the block that is cached.
    pub closed spec fn id(&self) -> usize {
        self.block_id
    }

    /// The device the block belongs to.
    pub closed spec fn device(&self) -> Arc<D> {
        self.block_device
    }

    /// Whether the bytes were handed out for writing since the last write-back.
    pub closed spec fn dirty(&self) -> bool {
        self.modified
    }

    /// The cache always holds one whole block.
    pub proof fn lemma_block_size(&self)
        ensures
            self.bytes().len() == BLOCK_SZ,
    {
    }

    /// Reads block `block_id` of `block_device` into a zeroed buffer of
    /// `BLOCK_SZ` bytes; the cache starts clean.
    pub fn new(block_id: usize, block_device: Arc<D>) -> (r: Self)
        ensures
            r.id() == block_id,
            r.device() == block_device,
            r.bytes().len() == BLOCK_SZ,
            block_device.read_gives(block_id, zero_block(), r.bytes()),
            !r.dirty(),
    {
        let mut cache: Box<[u8; BLOCK_SZ]> = Box::new([0u8; 512]);
        assert(cache@ =~= zero_block());
        let buf: &mut [u8; BLOCK_SZ] = &mut *cache;
        block_device.read_block(block_id, buf);
        BlockCache { cache, block_id, block_device, modified: false }
    }

    /// The `size_of::<T>()` bytes that start at `offset`.
    pub fn get_ref<T>(&self, offset: usize) -> (r: &[u8])
        requires
            offset < BLOCK_SZ,
            offset + vstd::layout::size_of::<T>() <= BLOCK_SZ,
        ensures
            r@ == self.bytes().subrange(offset as int, offset + vstd::layout::size_of::<T>()),
    {
        let type_size = core::mem::size_of::<T>();
        &self.cache.as_slice()[offset..offset + type_size]
    }

    /// The `size_of::<T>()` bytes that start at `offset`, for writing; the
    /// cache counts as modified from then on.
    pub fn get_mut<T>(&mut self, offset: usize) -> (r: &mut [u8])
        requires
            offset < BLOCK_SZ,
            offset + vstd::layout::size_of::<T>() <= BLOCK_SZ,
        ensures
            r@ == old(self).bytes().subrange(offset as int, offset + vstd::layout::size_of::<T>()),
            final(r)@.len() == vstd::layout::size_of::<T>(),
            final(self).bytes().subrange(offset as int, offset + vstd::layout::size_of::<T>()) == final(r)@,
            final(self).bytes() == old(self).bytes().subrange(0, offset as int) + final(r)@
                + tail_from(old(self).bytes(), offset + vstd::layout::size_of::<T>()),
            final(self).dirty(),
            final(self).id() == old(self).id(),
            final(self).device() == old(self).device(),
    {
        let type_size = core::mem::size_of::<T>();
        self.modified = true;
        let arr: &mut [u8; BLOCK_SZ] = &mut *self.cache;
        let whole: &mut [u8] = arr;
        let ghost gw = whole;
        let (before, rest) = whole.split_at_mut(offset);
        let ghost gr = rest;
        let (target, after) = rest.split_at_mut(type_size);
        assert(final(before)@ == before@);
        assert(final(after)@ == after@);
        assert(final(gr)@ == final(target)@ + final(after)@);
        assert(final(gw)@ == final(before)@ + final(gr)@);
        assert(final(gw)@.len() == BLOCK_SZ);
        target
    }

    /// What `sync` hands to the device: the block number and the bytes, when
    /// the cache was modified.
    pub fn pending_write(&self) -> (r: Option<(usize, &[u8])>)
        ensures
            r is Some <==> self.dirty(),
            r matches Some(p) ==> p.0 == self.id() && p.1@ == self.bytes(),
    {
        if self.modified {
            Some((self.block_id, self.cache.as_slice()))
        } else {
            None
        }
    }

    /// Writes the bytes back to the device if they were modified; the cache
    /// is clean afterwards.
    pub fn sync(&mut self)
        ensures
            final(self).bytes() == old(self).bytes(),
            final(self).id() == old(self).id(),
            final(self).device() == old(self).device(),
            !final(self).dirty(),
            old(self).dirty() ==> old(self).device().was_written(old(self).id(), old(self).bytes()),
    {
        match self.pending_write() {
            Some((block_id, bytes)) => self.block_device.write_block(block_id, bytes),
            None => {},
        }
        self.modified = false;
    }

    /// Hands the `size_of::<T>()` bytes at `offset` to `f` and returns what
    /// `f` returns.
    pub fn read<T, V>(&self, offset: usize, f: impl FnOnce(&[u8]) -> V) -> (r: V)
        requires
            offset < BLOCK_SZ,
            offset + vstd::layout::size_of::<T>() <= BLOCK_SZ,
            forall|s: &[u8]| #[trigger] f.requires((s,)),
        ensures
            exists|s: &[u8]|
                s@ == self.bytes().subrange(offset as int, offset + vstd::layout::size_of::<T>())
                    && #[trigger] f.ensures((s,), r),
    {
        let s = self.get_ref::<T>(offset);
        f(s)
    }

    /// Hands the `size_of::<T>()` bytes at `offset` to `f` for writing and
    /// returns what `f` returns; the cache counts as modified.
    pub fn modify<T, V>(&mut self, offset: usize, f: impl FnOnce(&mut [u8]) -> V) -> (r: V)
        requires
            offset < BLOCK_SZ,
            offset + vstd::layout::size_of::<T>() <= BLOCK_SZ,
            forall|m: &mut [u8]| #[trigger] f.requires((m,)),
        ensures
            exists|m: &mut [u8]|
                m@ == old(self).bytes().subrange(offset as int, offset + vstd::layout::size_of::<T>())
                    && final(m)@.len() == vstd::layout::size_of::<T>()
                    && final(self).bytes().subrange(offset as int, offset + vstd::layout::size_of::<T>())
                    == final(m)@
                    && final(self).bytes() == old(self).bytes().subrange(0, offset as int) + final(m)@
                    + tail_from(old(self).bytes(), offset + vstd::layout::size_of::<T>())
                    && #[trigger] f.ensures((m,), r),
            final(self).dirty(),
            final(self).id() == old(self).id(),
            final(self).device() == old(self).device(),
    {
        let m = self.get_mut::<T>(offset);
        f(m)
    }

    /// What was written through `get_mut` or `modify` is what a later read
    /// of the same place gives back, and the bytes around it are untouched.
    pub proof fn lemma_read_back_written(pre: Self, post: Self, offset: int, written: Seq<u8>)
        requires
            0 <= offset,
            offset + written.len() <= BLOCK_SZ,
            post.bytes() == pre.bytes().subrange(0, offset) + written + tail_from(
                pre.bytes(),
                offset + written.len(),
            ),
        ensures
            post.bytes().subrange(offset, offset + written.len()) == written,
            post.bytes().subrange(0, offset) == pre.bytes().subrange(0, offset),
            tail_from(post.bytes(), offset + written.len()) == tail_from(pre.bytes(), offset + written.len()),
    {
        pre.lemma_block_size();
        post.lemma_block_size();
        let a = pre.bytes().subrange(0, offset);
        let c = tail_from(pre.bytes(), offset + written.len());
        assert(post.bytes().subrange(offset, offset + written.len()) =~= written);
        assert(post.bytes().subrange(0, offset) =~= a);
        assert(tail_from(post.bytes(), offset + written.len()) =~= c);
    }
}

/// Declares `spin::Mutex` so that it can stand in signatures; its contents
/// are opaque to the proofs.
#[verifier::external_type_specification]
#[verifier::external_body]
#[verifier::reject_recursive_types(T)]
#[verifier::reject_recursive_types(R)]
pub struct ExSpinMutex<T: ?Sized, R>(spin::mutex::Mutex<T, R>);

/// Declares `spin::relax::Spin`, the default relax strategy of `spin::Mutex`.
#[verifier::external_type_specification]
#[verifier::external_body]
pub struct ExSpinRelax(spin::relax::Spin);

/// Calls `spin::Mutex::new`, which wraps `value` in an unlocked mutex.
/// Nothing is claimed of the result: its contents are not visible to the proofs.
#[verifier::external_body]
fn mutex_new<T>(value: T) -> spin::Mutex<T> {
    spin::Mutex::new(value)
}

/// Calls `spin::Mutex::into_inner`, which consumes the mutex and returns the
/// value it holds. Nothing is claimed of the result: the proofs do not see
/// what the mutex holds.
#[verifier::external_body]
fn mutex_into_inner<T>(m: spin::Mutex<T>) -> T {
    m.into_inner()
}

/// Calls `Arc::clone`: a second pointer to the same allocation, so the
/// pointee is the same value.
#[verifier::external_body]
fn arc_clone<T>(a: &Arc<T>) -> (r: Arc<T>)
    ensures
        r == *a,
{
    Arc::clone(a)
}

/// Calls `Arc::strong_count`. The count depends on the pointers that other
/// holders keep alive; all that is claimed is that `a` itself is one of them.
#[verifier::external_body]
fn arc_strong_count<T>(a: &Arc<T>) -> (r: usize)
    ensures
        r >= 1,
{
    Arc::strong_count(a)
}

/// Calls `Arc::try_unwrap`: the inner value when `a` was the only strong
/// pointer, otherwise the same `Arc` back. Which of the two comes back
/// depends on other holders; the contract says what each one holds.
#[verifier::external_body]
fn arc_try_unwrap<T>(a: Arc<T>) -> (r: Result<T, Arc<T>>)
    ensures
        r matches Ok(v) ==> v == *a,
        r matches Err(b) ==> b == a,
{
    Arc::try_unwrap(a)
}

/// Removing an element keeps the others distinct.
proof fn lemma_remove_keeps_distinct(s: Seq<usize>, i: int)
    requires
        s.no_duplicates(),
        0 <= i < s.len(),
    ensures
        s.remove(i).no_duplicates(),
{
    let t = s.remove(i);
    assert forall|a: int, b: int| 0 <= a < t.len() && 0 <= b < t.len() && a != b implies t[a] != t[b] by {
        let sa = if a < i { a } else { a + 1 };
        let sb = if b < i { b } else { b + 1 };
        assert(t[a] == s[sa]);
        assert(t[b] == s[sb]);
    }
}

/// A shared, lockable block cache as the manager hands it out.
pub type SharedBlockCache<D> = Arc<spin::Mutex<BlockCache<D>>>;

/// The index of the first entry of `counts` that equals one, if any.
pub open spec fn first_one(counts: Seq<usize>) -> Option<int> {
    if exists|i: int| 0 <= i < counts.len() && counts[i] == 1 {
        Some(choose|i: int| 0 <= i < counts.len() && counts[i] == 1
            && forall|j: int| 0 <= j < i ==> counts[j] != 1)
    } else {
        None
    }
}

/// The first position whose strong count is one: the first cache that no one
/// but the manager holds, which may be replaced.
pub fn first_releasable(counts: &Vec<usize>) -> (r: Option<usize>)
    ensures
        match r {
            Some(i) => i < counts@.len() && counts@[i as int] == 1
                && forall|j: int| 0 <= j < i ==> counts@[j] != 1,
            None => forall|j: int| 0 <= j < counts@.len() ==> counts@[j] != 1,
        },
        r matches Some(i) ==> first_one(counts@) == Some(i as int),
        r is None <==> first_one(counts@) is None,
{
    let mut i: usize = 0;
    while i < counts.len()
        invariant
            i <= counts@.len(),
            forall|j: int| 0 <= j < i ==> counts@[j] != 1,
        decreases counts@.len() - i,
    {
        if counts[i] == 1 {
            proof {
                let k = choose|k: int| 0 <= k < counts@.len() && counts@[k] == 1
                    && forall|j: int| 0 <= j < k ==> counts@[j] != 1;
                assert(0 <= k < counts@.len() && counts@[k] == 1
                    && forall|j: int| 0 <= j < k ==> counts@[j] != 1);
                if k < i {
                    assert(counts@[k] != 1);
                }
                if k > i {
                    assert(counts@[i as int] != 1);
                }
            }
            return Some(i);
        }
        i = i + 1;
    }
    None
}

/// Keeps up to `BLOCK_CACHE_SIZE` block caches, at most one per block, in
/// the order in which they were loaded.
#[verifier::reject_recursive_types(D)]
pub struct BlockCacheManager<D: BlockDevice + ?Sized> {
    queue: Vec<(usize, SharedBlockCache<D>)>,
    /// For each block the manager loaded, the cache it was loaded into, as
    /// it stood when it was put behind its mutex.
    loaded: Ghost<Map<usize, BlockCache<D>>>,
}

/// Whether `c` is what loading block `block_id` from `block_device` gives:
/// a clean cache of that block on that device, holding what the device read.
pub open spec fn loaded_from<D: BlockDevice + ?Sized>(c: BlockCache<D>, block_id: usize, block_device: Arc<D>) -> bool {
    &&& c.id() == block_id
    &&& c.device() == block_device
    &&& !c.dirty()
    &&& block_device.read_gives(block_id, zero_block(), c.bytes())
}

impl<D: BlockDevice + ?Sized> BlockCacheManager<D> {
    /// The numbers of the cached blocks, oldest first.
    pub closed spec fn ids(&self) -> Seq<usize> {
        self.queue@.map_values(|e: (usize, SharedBlockCache<D>)| e.0)
    }

    /// The caches, in the order of `ids`.
    pub closed spec fn cells(&self) -> Seq<SharedBlockCache<D>> {
        self.queue@.map_values(|e: (usize, SharedBlockCache<D>)| e.1)
    }

    /// The cache that block `block_id` was loaded into, when the manager
    /// loaded it (holders of the shared cache may have changed it since).
    pub closed spec fn origin(&self, block_id: usize) -> Option<BlockCache<D>> {
        if self.loaded@.dom().contains(block_id) {
            Some(self.loaded@[block_id])
        } else {
            None
        }
    }

    /// Every cached block was loaded by the manager, for that very block.
    pub open spec fn origins_known(&self) -> bool {
        forall|i: int|
            0 <= i < self.ids().len() ==> (#[trigger] self.origin(self.ids()[i]) matches Some(c) && loaded_from(
                c,
                self.ids()[i],
                c.device(),
            ))
    }

    /// What a lookup of `block_id` on `block_device` does to the loaded
    /// caches: a cached block keeps its origin, a newly cached block was
    /// loaded from `block_id` of `block_device`, and every other block that
    /// was cached keeps its origin.
    pub open spec fn loads(pre: Self, block_id: usize, block_device: Arc<D>, post: Self) -> bool {
        &&& pre.ids().contains(block_id) ==> post.origin(block_id) == pre.origin(block_id)
        &&& !pre.ids().contains(block_id) && post.ids().contains(block_id) ==> (post.origin(block_id) matches Some(c)
            && loaded_from(c, block_id, block_device))
        &&& forall|k: usize| #[trigger] pre.ids().contains(k) && k != block_id ==> post.origin(k) == pre.origin(k)
    }

    /// No block is cached twice and the queue holds at most
    /// `BLOCK_CACHE_SIZE` caches.
    pub open spec fn wf(&self) -> bool {
        &&& self.ids().no_duplicates()
        &&& self.ids().len() <= BLOCK_CACHE_SIZE
        &&& self.cells().len() == self.ids().len()
    }

    /// What a lookup of `block_id` does to a manager in state `pre`, leaving
    /// `post` and returning `r`: a cached block gives back its cache and
    /// changes nothing; a missing block is loaded at the end of the queue.
    /// When the queue is full, one cache leaves first and the others keep
    /// their order, or nothing changes and there is no result. Which cache
    /// leaves depends on who else holds the caches; `evict_first_unshared`
    /// fixes it for given strong counts.
    pub open spec fn lookup(pre: Self, block_id: usize, post: Self, r: Option<SharedBlockCache<D>>) -> bool {
        if pre.ids().contains(block_id) {
            &&& post.ids() == pre.ids()
            &&& post.cells() == pre.cells()
            &&& exists|i: int| 0 <= i < pre.ids().len() && pre.ids()[i] == block_id
                && r == Some(pre.cells()[i])
        } else if pre.ids().len() < BLOCK_CACHE_SIZE {
            &&& post.ids() == pre.ids().push(block_id)
            &&& post.cells().drop_last() == pre.cells()
            &&& r == Some(post.cells().last())
        } else {
            ||| {
                &&& r is None
                &&& post.ids() == pre.ids()
                &&& post.cells() == pre.cells()
            }
            ||| exists|i: int| 0 <= i < pre.ids().len()
                && post.ids() == pre.ids().remove(i).push(block_id)
                && post.cells().drop_last() == pre.cells().remove(i)
                && r == Some(post.cells().last())
        }
    }

    /// Looking a block up again right after a successful lookup of it gives
    /// back the same cache and leaves the queue as it was.
    pub proof fn lemma_lookup_again_hits(
        m0: Self,
        m1: Self,
        m2: Self,
        block_id: usize,
        r1: Option<SharedBlockCache<D>>,
        r2: Option<SharedBlockCache<D>>,
    )
        requires
            m0.wf(),
            m1.wf(),
            Self::lookup(m0, block_id, m1, r1),
            r1 is Some,
            Self::lookup(m1, block_id, m2, r2),
        ensures
            r2 == r1,
            m2.ids() == m1.ids(),
            m2.cells() == m1.cells(),
    {
        // Where the block sits in `m1`, and which cache is there.
        let k: int = if m0.ids().contains(block_id) {
            choose|i: int| 0 <= i < m0.ids().len() && m0.ids()[i] == block_id && r1 == Some(m0.cells()[i])
        } else {
            m1.ids().len() - 1
        };
        assert(0 <= k < m1.ids().len() && m1.ids()[k] == block_id && r1 == Some(m1.cells()[k]));
        assert(m1.ids().contains(block_id));
        let j = choose|i: int| 0 <= i < m1.ids().len() && m1.ids()[i] == block_id && r2 == Some(m1.cells()[i]);
        assert(j == k);
    }

    /// The cache a lookup of `block_id` hands out is the one cached for
    /// `block_id`, and it was loaded for `block_id`: a clean cache of that
    /// block holding what its device read. On a miss it was loaded from the
    /// device passed in.
    pub proof fn lemma_handed_out_cache_is_of_its_block(
        pre: Self,
        block_id: usize,
        block_device: Arc<D>,
        post: Self,
        r: Option<SharedBlockCache<D>>,
    )
        requires
            pre.wf(),
            post.wf(),
            pre.origins_known(),
            Self::lookup(pre, block_id, post, r),
            Self::loads(pre, block_id, block_device, post),
            r is Some,
        ensures
            exists|i: int| 0 <= i < post.ids().len() && post.ids()[i] == block_id && r == Some(post.cells()[i]),
            post.origin(block_id) matches Some(c) && c.id() == block_id && !c.dirty()
                && c.device().read_gives(block_id, zero_block(), c.bytes()),
            !pre.ids().contains(block_id) ==> (post.origin(block_id) matches Some(c) && c.device() == block_device),
    {
        if pre.ids().contains(block_id) {
            let i = choose|i: int| 0 <= i < pre.ids().len() && pre.ids()[i] == block_id && r == Some(pre.cells()[i]);
            assert(pre.origin(pre.ids()[i]) matches Some(c) && loaded_from(c, pre.ids()[i], c.device()));
        } else {
            let i = post.ids().len() - 1;
            if pre.ids().len() < BLOCK_CACHE_SIZE {
                assert(post.ids()[i] == block_id);
            } else {
                let j = choose|j: int| 0 <= j < pre.ids().len()
                    && post.ids() == pre.ids().remove(j).push(block_id)
                    && post.cells().drop_last() == pre.cells().remove(j)
                    && r == Some(post.cells().last());
                assert(post.ids()[i] == block_id);
            }
            assert(post.ids().contains(block_id));
        }
    }

    /// An empty manager.
    pub fn new() -> (r: Self)
        ensures
            r.wf(),
            r.ids() == Seq::<usize>::empty(),
            r.origins_known(),
    {
        let r = BlockCacheManager { queue: Vec::new(), loaded: Ghost(Map::empty()) };
        assert(r.ids() =~= Seq::<usize>::empty());
        r
    }

    /// The position of `block_id` in the queue, if it is cached.
    fn position_of(&self, block_id: usize) -> (r: Option<usize>)
        requires
            self.wf(),
        ensures
            match r {
                Some(i) => i < self.ids().len() && self.ids()[i as int] == block_id,
                None => !self.ids().contains(block_id),
            },
    {
        let mut i: usize = 0;
        while i < self.queue.len()
            invariant
                self.wf(),
                i <= self.ids().len(),
                forall|j: int| 0 <= j < i ==> self.ids()[j] != block_id,
            decreases self.ids().len() - i,
        {
            if self.queue[i].0 == block_id {
                return Some(i);
            }
            i = i + 1;
        }
        None
    }

    /// The strong count of each cache, in queue order.
    fn strong_counts(&self) -> (r: Vec<usize>)
        requires
            self.wf(),
        ensures
            r@.len() == self.ids().len(),
    {
        let mut counts: Vec<usize> = Vec::new();
        let mut i: usize = 0;
        while i < self.queue.len()
            invariant
                self.wf(),
                i <= self.ids().len(),
                counts@.len() == i,
            decreases self.ids().len() - i,
        {
            counts.push(arc_strong_count(&self.queue[i].1));
            i = i + 1;
        }
        counts
    }

    /// Drops the first cache whose strong count in `counts` is one (the
    /// oldest cache that no one but the manager holds), writing it back if
    /// it was modified; the other caches keep their order. Returns whether a
    /// cache was dropped; when none has count one, nothing changes.
    pub fn evict_first_unshared(&mut self, counts: &Vec<usize>) -> (evicted: bool)
        requires
            old(self).wf(),
            counts@.len() == old(self).ids().len(),
        ensures
            final(self).wf(),
            match first_one(counts@) {
                Some(i) => evicted && final(self).ids() == old(self).ids().remove(i)
                    && final(self).cells() == old(self).cells().remove(i),
                None => !evicted && final(self).ids() == old(self).ids()
                    && final(self).cells() == old(self).cells(),
            },
            forall|k: usize| #[trigger] final(self).origin(k) == old(self).origin(k),
            old(self).origins_known() ==> final(self).origins_known(),
    {
        let ghost pre = *self;
        match first_releasable(counts) {
            Some(idx) => {
                let (_, cell) = self.queue.remove(idx);
                Self::release(cell);
                assert(self.ids() =~= pre.ids().remove(idx as int));
                assert(self.cells() =~= pre.cells().remove(idx as int));
                proof {
                    lemma_remove_keeps_distinct(pre.ids(), idx as int);
                    if pre.origins_known() {
                        assert forall|i: int| 0 <= i < self.ids().len() implies (#[trigger] self.origin(
                            self.ids()[i],
                        ) matches Some(c) && loaded_from(c, self.ids()[i], c.device())) by {
                            let j: int = if i < idx { i } else { i + 1 };
                            assert(self.ids()[i] == pre.ids()[j]);
                            assert(pre.origin(pre.ids()[j]) matches Some(c) && loaded_from(c, pre.ids()[j], c.device()));
                            assert(self.origin(self.ids()[i]) == pre.origin(pre.ids()[j]));
                        }
                    }
                }
                true
            },
            None => false,
        }
    }

    /// Writes a dropped cache back when the manager held the last pointer to it.
    fn release(cell: SharedBlockCache<D>) {
        match arc_try_unwrap(cell) {
            Ok(m) => {
                let mut cache = mutex_into_inner(m);
                cache.sync();
            },
            Err(_) => {},
        }
    }

    /// The cache of block `block_id`, loaded from `block_device` when it is
    /// not cached yet. `None` when the queue is full and every cache in it is
    /// still held elsewhere.
    pub fn get_block_cache(&mut self, block_id: usize, block_device: Arc<D>) -> (r: Option<SharedBlockCache<D>>)
        requires
            old(self).wf(),
        ensures
            final(self).wf(),
            Self::lookup(*old(self), block_id, *final(self), r),
            Self::loads(*old(self), block_id, block_device, *final(self)),
            old(self).origins_known() ==> final(self).origins_known(),
    {
        let ghost pre = *self;
        match self.position_of(block_id) {
            Some(i) => {
                let cell = arc_clone(&self.queue[i].1);
                return Some(cell);
            },
            None => {},
        }
        if self.queue.len() == BLOCK_CACHE_SIZE {
            let counts = self.strong_counts();
            if !self.evict_first_unshared(&counts) {
                return None;
            }
        }
        let ghost mid = *self;
        let cache = BlockCache::new(block_id, block_device);
        let ghost origin = cache;
        let cell: SharedBlockCache<D> = Arc::new(mutex_new(cache));
        self.queue.push((block_id, arc_clone(&cell)));
        self.loaded = Ghost(self.loaded@.insert(block_id, origin));
        assert(self.ids() =~= mid.ids().push(block_id));
        assert(self.cells().drop_last() =~= mid.cells());
        assert(self.ids()[self.ids().len() - 1] == block_id);
        assert(!mid.ids().contains(block_id)) by {
            if mid.ids().contains(block_id) {
                let k = choose|k: int| 0 <= k < mid.ids().len() && mid.ids()[k] == block_id;
                if mid.ids() != pre.ids() {
                    let idx = choose|i: int| 0 <= i < pre.ids().len() && mid.ids() == pre.ids().remove(i);
                    if k < idx {
                        assert(pre.ids()[k] == block_id);
                    } else {
                        assert(pre.ids()[k + 1] == block_id);
                    }
                }
            }
        }
        assert(self.origin(block_id) == Some(origin));
        assert forall|k: usize| #[trigger] pre.ids().contains(k) && k != block_id implies self.origin(k)
            == pre.origin(k) by {
            assert(mid.origin(k) == pre.origin(k));
        }
        assert(pre.origins_known() ==> self.origins_known()) by {
            if pre.origins_known() {
                assert forall|i: int| 0 <= i < self.ids().len() implies (#[trigger] self.origin(
                    self.ids()[i],
                ) matches Some(c) && loaded_from(c, self.ids()[i], c.device())) by {
                    if i < self.ids().len() - 1 {
                        let id = self.ids()[i];
                        assert(id == mid.ids()[i]);
                        assert(mid.origin(id) == pre.origin(id));
                        if mid.ids() == pre.ids() {
                            assert(mid.origins_known());
                        } else {
                            let idx = choose|j: int| 0 <= j < pre.ids().len() && mid.ids() == pre.ids().remove(j);
                            if i < idx {
                                assert(id == pre.ids()[i]);
                            } else {
                                assert(id == pre.ids()[i + 1]);
                            }
                        }
                    }
                }
            }
        }
        Some(cell)
    }
}

} // verus!
