use rcore_os::block_cache::{first_releasable, BlockCache, BlockCacheManager, BLOCK_CACHE_SIZE};
use rcore_os::block_dev::{BlockDevice, BLOCK_SZ};
use std::sync::{Arc, Mutex};

/// A RAM disk that counts its reads and writes.
struct RamDisk {
    blocks: Mutex<Vec<Vec<u8>>>,
    reads: Mutex<Vec<usize>>,
    writes: Mutex<Vec<usize>>,
}

impl RamDisk {
    fn new(n: usize) -> Arc<RamDisk> {
        let mut blocks = Vec::new();
        for i in 0..n {
            blocks.push(vec![(i % 251) as u8; BLOCK_SZ]);
        }
        Arc::new(RamDisk {
            blocks: Mutex::new(blocks),
            reads: Mutex::new(Vec::new()),
            writes: Mutex::new(Vec::new()),
        })
    }
    fn reads(&self) -> Vec<usize> {
        self.reads.lock().unwrap().clone()
    }
    fn writes(&self) -> Vec<usize> {
        self.writes.lock().unwrap().clone()
    }
    fn block(&self, id: usize) -> Vec<u8> {
        self.blocks.lock().unwrap()[id].clone()
    }
}

impl BlockDevice for RamDisk {
    fn read_block(&self, block_id: usize, buf: &mut [u8]) {
        buf.copy_from_slice(&self.blocks.lock().unwrap()[block_id]);
        self.reads.lock().unwrap().push(block_id);
    }
    fn write_block(&self, block_id: usize, buf: &[u8]) {
        self.blocks.lock().unwrap()[block_id].copy_from_slice(buf);
        self.writes.lock().unwrap().push(block_id);
    }
}

fn dev(d: &Arc<RamDisk>) -> Arc<dyn BlockDevice> {
    d.clone()
}

#[test]
fn new_cache_reads_the_block() {
    let disk = RamDisk::new(4);
    let cache = BlockCache::new(3, dev(&disk));
    assert_eq!(disk.reads(), vec![3]);
    let bytes = cache.read::<[u8; 4], _>(0, |b: &[u8]| b.to_vec());
    assert_eq!(bytes, vec![3, 3, 3, 3]);
}

#[test]
fn get_ref_covers_the_size_of_the_type() {
    let disk = RamDisk::new(2);
    let cache = BlockCache::new(1, dev(&disk));
    assert_eq!(cache.get_ref::<u64>(8).len(), 8);
    assert_eq!(cache.get_ref::<u16>(BLOCK_SZ - 2).len(), 2);
    assert_eq!(cache.get_ref::<u8>(511), &[1u8][..]);
    assert_eq!(cache.get_ref::<()>(0).len(), 0);
}

#[test]
fn modify_then_read_gives_back_the_written_bytes() {
    let disk = RamDisk::new(2);
    let mut cache = BlockCache::new(0, dev(&disk));
    let old = cache.modify::<u32, _>(4, |b: &mut [u8]| {
        let old = u32::from_le_bytes([b[0], b[1], b[2], b[3]]);
        b.copy_from_slice(&0xdead_beefu32.to_le_bytes());
        old
    });
    assert_eq!(old, 0);
    let v = cache.read::<u32, _>(4, |b: &[u8]| u32::from_le_bytes([b[0], b[1], b[2], b[3]]));
    assert_eq!(v, 0xdead_beef);
    // The bytes around the written ones are untouched.
    assert_eq!(cache.get_ref::<u32>(0), &[0u8, 0, 0, 0][..]);
    assert_eq!(cache.get_ref::<u32>(8), &[0u8, 0, 0, 0][..]);
    // Nothing reaches the device before a sync.
    assert!(disk.writes().is_empty());
}

#[test]
fn sync_writes_back_only_when_modified() {
    let disk = RamDisk::new(2);
    let mut cache = BlockCache::new(1, dev(&disk));
    cache.sync();
    assert!(disk.writes().is_empty());
    cache.get_mut::<u8>(10)[0] = 42;
    cache.sync();
    assert_eq!(disk.writes(), vec![1]);
    assert_eq!(disk.block(1)[10], 42);
    assert_eq!(disk.block(1)[9], 1);
    // Clean after the write-back: a second sync writes nothing.
    cache.sync();
    assert_eq!(disk.writes(), vec![1]);
}

#[test]
fn first_releasable_picks_the_first_unshared_entry() {
    assert_eq!(first_releasable(&vec![2, 3, 1, 1]), Some(2));
    assert_eq!(first_releasable(&vec![1]), Some(0));
    assert_eq!(first_releasable(&vec![2, 2, 5]), None);
    assert_eq!(first_releasable(&vec![]), None);
}

#[test]
fn a_cached_block_is_handed_out_again() {
    let disk = RamDisk::new(4);
    let mut m: BlockCacheManager<dyn BlockDevice> = BlockCacheManager::new();
    let a = m.get_block_cache(2, dev(&disk)).unwrap();
    let b = m.get_block_cache(2, dev(&disk)).unwrap();
    assert!(Arc::ptr_eq(&a, &b));
    assert_eq!(disk.reads(), vec![2]);
    assert_eq!(a.lock().read::<u8, _>(0, |s: &[u8]| s[0]), 2);
}

#[test]
fn a_full_queue_replaces_the_oldest_unshared_cache() {
    let disk = RamDisk::new(40);
    let mut m: BlockCacheManager<dyn BlockDevice> = BlockCacheManager::new();
    // Block 0 stays shared; the others are dropped by their users.
    let keep = m.get_block_cache(0, dev(&disk)).unwrap();
    for id in 1..BLOCK_CACHE_SIZE {
        let c = m.get_block_cache(id, dev(&disk)).unwrap();
        if id == 1 {
            c.lock().modify::<u8, _>(0, |b: &mut [u8]| b[0] = 99);
        }
    }
    assert_eq!(disk.reads().len(), BLOCK_CACHE_SIZE);
    // The queue is full: block 1, the oldest unshared cache, leaves and is
    // written back since it was modified.
    let _c = m.get_block_cache(20, dev(&disk)).unwrap();
    assert_eq!(disk.writes(), vec![1]);
    assert_eq!(disk.block(1)[0], 99);
    // Block 0 is still cached: no new read.
    let again = m.get_block_cache(0, dev(&disk)).unwrap();
    assert!(Arc::ptr_eq(&keep, &again));
    assert_eq!(disk.reads().len(), BLOCK_CACHE_SIZE + 1);
    // Block 1 was dropped: it is read again.
    let _d = m.get_block_cache(1, dev(&disk)).unwrap();
    assert_eq!(disk.reads().len(), BLOCK_CACHE_SIZE + 2);
    assert_eq!(*disk.reads().last().unwrap(), 1);
}

#[test]
fn a_full_queue_of_shared_caches_refuses_a_new_block() {
    let disk = RamDisk::new(40);
    let mut m: BlockCacheManager<dyn BlockDevice> = BlockCacheManager::new();
    let mut held = Vec::new();
    for id in 0..BLOCK_CACHE_SIZE {
        held.push(m.get_block_cache(id, dev(&disk)).unwrap());
    }
    assert!(m.get_block_cache(30, dev(&disk)).is_none());
    // The cached blocks are still there.
    let c = m.get_block_cache(5, dev(&disk)).unwrap();
    assert!(Arc::ptr_eq(&c, &held[5]));
    assert_eq!(disk.reads().len(), BLOCK_CACHE_SIZE);
}

#[test]
fn pending_write_reports_the_modified_block() {
    let disk = RamDisk::new(4);
    let mut cache = BlockCache::new(2, dev(&disk));
    assert!(cache.pending_write().is_none());
    cache.modify::<u8, _>(3, |b: &mut [u8]| b[0] = 7);
    {
        let (id, bytes) = cache.pending_write().unwrap();
        assert_eq!(id, 2);
        assert_eq!(bytes.len(), BLOCK_SZ);
        assert_eq!(bytes[3], 7);
        assert_eq!(bytes[4], 2);
    }
    cache.sync();
    assert!(cache.pending_write().is_none());
    assert_eq!(disk.block(2)[3], 7);
}

#[test]
fn evict_first_unshared_drops_the_first_entry_with_count_one() {
    let disk = RamDisk::new(8);
    let mut m: BlockCacheManager<dyn BlockDevice> = BlockCacheManager::new();
    for id in 0..4 {
        let c = m.get_block_cache(id, dev(&disk)).unwrap();
        c.lock().modify::<u8, _>(0, |b: &mut [u8]| b[0] = 100 + id as u8);
    }
    // Entry 1 is the first with count one: it leaves and is written back.
    assert!(m.evict_first_unshared(&vec![2, 1, 1, 3]));
    assert_eq!(disk.writes(), vec![1]);
    assert_eq!(disk.block(1)[0], 101);
    // No entry with count one: nothing changes.
    assert!(!m.evict_first_unshared(&vec![2, 2, 2]));
    assert_eq!(disk.writes(), vec![1]);
    // Blocks 0, 2, 3 are still cached; block 1 is read again.
    let reads = disk.reads().len();
    for id in [0usize, 2, 3] {
        m.get_block_cache(id, dev(&disk)).unwrap();
    }
    assert_eq!(disk.reads().len(), reads);
    m.get_block_cache(1, dev(&disk)).unwrap();
    assert_eq!(disk.reads().len(), reads + 1);
}
