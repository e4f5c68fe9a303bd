use std::collections::HashMap;

use buffer_pool::buffer_pool_manager::{BufferPoolManager, BufferPoolManagerError, FetchPlan};
use buffer_pool::fixture;
use buffer_pool::{FrameId, PageId, PAGE_SIZE};

const BUFFER_POOL_SIZE: usize = 5;

/// A disk held in memory, with a log of the writes made to it.
struct MemoryDisk {
    pages: HashMap<PageId, [u8; PAGE_SIZE]>,
    writes: Vec<PageId>,
}

impl MemoryDisk {
    fn new() -> Self {
        MemoryDisk { pages: HashMap::new(), writes: Vec::new() }
    }

    fn flush_page(&mut self, page_id: PageId, buf: [u8; PAGE_SIZE]) {
        self.pages.insert(page_id, buf);
        self.writes.push(page_id);
    }
}

/// Fetches `page_id`, carrying out the disk work that the pool asks for.
fn fetch(pool: &mut BufferPoolManager, disk: &mut MemoryDisk, page_id: PageId) -> Result<FrameId, BufferPoolManagerError> {
    match pool.fetch_page(page_id)? {
        FetchPlan::Resident(frame_id) => Ok(frame_id),
        FetchPlan::Load { frame_id, write_back } => {
            if let Some((old_id, bytes)) = write_back {
                disk.flush_page(old_id, bytes);
            }
            let data = *disk.pages.get(&page_id).ok_or(BufferPoolManagerError::PageNotFound)?;
            let installed = pool.complete_fetch(page_id, data);
            assert_eq!(installed, frame_id);
            Ok(frame_id)
        }
    }
}

#[test]
fn test_buffer_pool_manager() {
    let mut disk = MemoryDisk::new();
    let mut buffer_pool_manager = BufferPoolManager::new(BUFFER_POOL_SIZE);

    for i in 1..=BUFFER_POOL_SIZE {
        let buf = fixture::create_random_binary_page_data();

        let page_id = i;

        disk.flush_page(page_id, buf);

        let page = fetch(&mut buffer_pool_manager, &mut disk, page_id);

        assert!(page.is_ok());
        assert_eq!(buffer_pool_manager.resident_count(), i);
        assert_eq!(buffer_pool_manager.free_count(), BUFFER_POOL_SIZE - i);
        buffer_pool_manager.unpin(page_id).unwrap();
    }

    let buf = fixture::create_random_binary_page_data();

    let page_id = 100;

    disk.flush_page(page_id, buf);

    let page = fetch(&mut buffer_pool_manager, &mut disk, page_id);

    assert!(page.is_ok());
    assert_eq!(buffer_pool_manager.resident_count(), BUFFER_POOL_SIZE);
    assert_eq!(buffer_pool_manager.free_count(), 0);
    assert!(!buffer_pool_manager.is_resident(1));
    assert!(buffer_pool_manager.is_resident(100));
}

#[test]
fn resident_fetch_pins_again_without_eviction() {
    let mut disk = MemoryDisk::new();
    let mut pool = BufferPoolManager::new(3);
    disk.flush_page(8, [8; PAGE_SIZE]);
    let frame = fetch(&mut pool, &mut disk, 8).unwrap();
    let before = *pool.page(8).unwrap();
    let free_before = pool.free_count();
    let writes_before = disk.writes.len();

    match pool.fetch_page(8).unwrap() {
        FetchPlan::Resident(f) => assert_eq!(f, frame),
        FetchPlan::Load { .. } => panic!("a resident page was planned for loading"),
    }
    let after = *pool.page(8).unwrap();
    assert_eq!(after.pin_count, before.pin_count + 1);
    assert!(after.last_used_at > before.last_used_at);
    assert_eq!(pool.free_count(), free_before);
    assert_eq!(pool.resident_count(), 1);
    assert_eq!(disk.writes.len(), writes_before);
}

#[test]
fn full_pinned_pool_is_exhausted_and_unchanged() {
    let mut disk = MemoryDisk::new();
    let mut pool = BufferPoolManager::new(3);
    for id in [10, 20, 30, 40] {
        disk.flush_page(id, [id as u8; PAGE_SIZE]);
    }
    for id in [10, 20, 30] {
        assert!(fetch(&mut pool, &mut disk, id).is_ok());
    }
    assert_eq!(pool.free_count(), 0);
    assert_eq!(pool.resident_count(), 3);

    assert_eq!(fetch(&mut pool, &mut disk, 40), Err(BufferPoolManagerError::PoolExhausted));
    assert_eq!(pool.resident_count(), 3);
    assert_eq!(pool.free_count(), 0);
    for id in [10, 20, 30] {
        assert!(pool.is_resident(id));
        assert_eq!(pool.page(id).unwrap().pin_count, 1);
    }
    assert!(!pool.is_resident(40));
}

#[test]
fn eviction_takes_least_recently_used_and_writes_back_dirty_page() {
    let mut disk = MemoryDisk::new();
    let mut pool = BufferPoolManager::new(2);
    for id in [1, 2, 3] {
        disk.flush_page(id, [id as u8; PAGE_SIZE]);
    }
    fetch(&mut pool, &mut disk, 1).unwrap();
    fetch(&mut pool, &mut disk, 2).unwrap();
    pool.update_page(1, [0xAB; PAGE_SIZE]).unwrap();
    assert!(pool.page(1).unwrap().is_dirty);
    pool.unpin(1).unwrap();
    pool.unpin(2).unwrap();
    // Page 2 is used again, so page 1 is now the least recently used.
    fetch(&mut pool, &mut disk, 2).unwrap();
    pool.unpin(2).unwrap();

    match pool.fetch_page(3).unwrap() {
        FetchPlan::Load { frame_id: _, write_back } => {
            let (old_id, bytes) = write_back.expect("a dirty victim must be written back");
            assert_eq!(old_id, 1);
            assert_eq!(bytes, [0xAB; PAGE_SIZE]);
        }
        FetchPlan::Resident(_) => panic!("page 3 is not resident"),
    }
    let writes_before = disk.writes.len();
    fetch(&mut pool, &mut disk, 3).unwrap();
    assert_eq!(disk.writes.len(), writes_before + 1);
    assert_eq!(disk.pages[&1], [0xAB; PAGE_SIZE]);
    assert!(!pool.is_resident(1));
    assert!(pool.is_resident(2));
    assert!(pool.is_resident(3));
    assert_eq!(pool.page(3).unwrap().data, [3; PAGE_SIZE]);
    assert_eq!(pool.resident_count() + pool.free_count(), pool.pool_size());
}

#[test]
fn clean_victim_needs_no_write_back() {
    let mut disk = MemoryDisk::new();
    let mut pool = BufferPoolManager::new(1);
    disk.flush_page(1, [1; PAGE_SIZE]);
    disk.flush_page(2, [2; PAGE_SIZE]);
    fetch(&mut pool, &mut disk, 1).unwrap();
    pool.unpin(1).unwrap();
    match pool.fetch_page(2).unwrap() {
        FetchPlan::Load { frame_id, write_back } => {
            assert_eq!(frame_id, 0);
            assert!(write_back.is_none());
        }
        FetchPlan::Resident(_) => panic!("page 2 is not resident"),
    }
    // Planning alone changes nothing.
    assert!(pool.is_resident(1));
}

#[test]
fn unpin_errors() {
    let mut disk = MemoryDisk::new();
    let mut pool = BufferPoolManager::new(2);
    disk.flush_page(5, [5; PAGE_SIZE]);
    assert_eq!(pool.unpin(5), Err(BufferPoolManagerError::PageNotFound));
    fetch(&mut pool, &mut disk, 5).unwrap();
    assert_eq!(pool.unpin(5), Ok(()));
    assert_eq!(pool.unpin(5), Err(BufferPoolManagerError::PageNotPinned));
    assert_eq!(pool.page(5).unwrap().pin_count, 0);
}

#[test]
fn update_of_absent_page_fails() {
    let mut pool = BufferPoolManager::new(2);
    assert_eq!(pool.update_page(9, [1; PAGE_SIZE]), Err(BufferPoolManagerError::PageNotFound));
    assert!(pool.page(9).is_none());
}

#[test]
fn capacity_holds_through_operations() {
    let mut disk = MemoryDisk::new();
    let mut pool = BufferPoolManager::new(4);
    assert_eq!(pool.pool_size(), 4);
    assert_eq!(pool.free_count(), 4);
    for id in 0..10 {
        disk.flush_page(id, [id as u8; PAGE_SIZE]);
    }
    for id in 0..10 {
        fetch(&mut pool, &mut disk, id).unwrap();
        assert_eq!(pool.resident_count() + pool.free_count(), 4);
        pool.unpin(id).unwrap();
        assert_eq!(pool.resident_count() + pool.free_count(), 4);
    }
    assert!(pool.has_pin_room(9));
    assert!(pool.has_pin_room(1000));
}

#[test]
fn zero_sized_pool_is_always_exhausted() {
    let mut pool = BufferPoolManager::new(0);
    assert!(matches!(pool.fetch_page(1), Err(BufferPoolManagerError::PoolExhausted)));
}

#[test]
fn evicted_dirty_page_reads_back_identical() {
    let mut disk = MemoryDisk::new();
    let mut pool = BufferPoolManager::new(1);
    disk.flush_page(1, [0; PAGE_SIZE]);
    disk.flush_page(2, [0; PAGE_SIZE]);
    let payload = fixture::create_random_binary_page_data();

    fetch(&mut pool, &mut disk, 1).unwrap();
    pool.update_page(1, payload).unwrap();
    pool.unpin(1).unwrap();
    fetch(&mut pool, &mut disk, 2).unwrap();
    assert!(!pool.is_resident(1));
    pool.unpin(2).unwrap();
    fetch(&mut pool, &mut disk, 1).unwrap();

    let page = pool.page(1).unwrap();
    assert_eq!(page.data, payload);
    assert!(!page.is_dirty);
    assert_eq!(page.pin_count, 1);
}
