use vstd::prelude::*;

pub mod buffer_pool_manager;
pub mod disk_manager;
pub mod disk_scheduler;
pub mod fixture;
pub mod replacer;

use crate::buffer_pool_manager::BufferPoolManagerError;

verus! {

/// Identity of a page on disk.
pub type PageId = usize;

/// Index of an in-memory frame of the buffer pool.
pub type FrameId = usize;

/// Size in bytes of every page, in memory and on disk.
pub const PAGE_SIZE: usize = 4096;

/// Relies on chrono's `Utc::now` and `DateTime::timestamp_millis`: the wall-clock
/// time in milliseconds since the Unix epoch. Nothing is promised of the value.
#[verifier::external_body]
pub(crate) fn now_millis() -> (r: i64) {
    chrono::Utc::now().timestamp_millis()
}

/// A page held by a frame: its bytes and the bookkeeping the pool keeps in memory.
#[derive(Debug, Clone, Copy)]
pub struct Page {
    pub id: PageId,
    pub data: [u8; PAGE_SIZE],
    /// Number of active holders; a page with holders is never evicted.
    pub pin_count: u32,
    /// Set when the bytes were changed since they were last written to disk.
    pub is_dirty: bool,
    /// Time of the last access, in milliseconds.
    pub last_used_at: i64,
}

/// The access time that follows `last` when the clock reads `now`:
/// the clock, unless it does not move past `last`.
pub open spec fn next_use_time(last: i64, now: i64) -> int {
    if now > last {
        now as int
    } else {
        last + 1
    }
}

impl Page {
    /// A clean, unpinned page holding `data`, last used now.
    pub fn new(id: PageId, data: [u8; PAGE_SIZE]) -> (r: Self)
        ensures
            r.id == id,
            r.data == data,
            r.pin_count == 0,
            !r.is_dirty,
    {
        Page { id, data, pin_count: 0, is_dirty: false, last_used_at: now_millis() }
    }

    pub fn is_unused(&self) -> (r: bool)
        ensures
            r == (self.pin_count == 0),
    {
        self.pin_count == 0
    }

    pub fn get_id(&self) -> (r: PageId)
        ensures
            r == self.id,
    {
        self.id
    }

    /// Adds a holder and records an access at the current time.
    pub fn pin(&mut self)
        requires
            old(self).pin_count < u32::MAX,
            old(self).last_used_at < i64::MAX,
        ensures
            final(self).pin_count == old(self).pin_count + 1,
            final(self).last_used_at > old(self).last_used_at,
            final(self).id == old(self).id,
            final(self).data == old(self).data,
            final(self).is_dirty == old(self).is_dirty,
    {
        let now = now_millis();
        self.pin_at(now);
    }

    /// Adds a holder and records an access at time `now`; the access time
    /// always moves forward, even where the clock does not.
    pub fn pin_at(&mut self, now: i64)
        requires
            old(self).pin_count < u32::MAX,
            old(self).last_used_at < i64::MAX,
        ensures
            final(self).pin_count == old(self).pin_count + 1,
            final(self).last_used_at == next_use_time(old(self).last_used_at, now),
            final(self).id == old(self).id,
            final(self).data == old(self).data,
            final(self).is_dirty == old(self).is_dirty,
    {
        self.pin_count = self.pin_count + 1;
        self.last_used_at = if now > self.last_used_at {
            now
        } else {
            self.last_used_at + 1
        };
    }

    /// Removes a holder; a page without holders is left as it is and reported.
    pub fn unpin(&mut self) -> (r: Result<(), BufferPoolManagerError>)
        ensures
            old(self).pin_count == 0 ==> r == Err::<(), _>(BufferPoolManagerError::PageNotPinned)
                && *final(self) == *old(self),
            old(self).pin_count > 0 ==> r is Ok && *final(self) == (Page {
                pin_count: (old(self).pin_count - 1) as u32,
                ..*old(self)
            }),
    {
        if self.pin_count == 0 {
            return Err(BufferPoolManagerError::PageNotPinned);
        }
        self.pin_count = self.pin_count - 1;
        Ok(())
    }
}

} // verus!
