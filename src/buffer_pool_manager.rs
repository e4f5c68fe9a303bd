use vstd::prelude::*;

use std::collections::HashMap;
use std::collections::VecDeque;

use crate::replacer::{
    evictable, is_lru_victim, lemma_lru_victim_exists, used_before, Frames, LRUReplacer,
};
use crate::{FrameId, Page, PageId, PAGE_SIZE};

verus! {

broadcast use vstd::std_specs::hash::group_hash_axioms;

/// Why an operation of the pool did not take place.
#[derive(Debug, Clone, Copy, PartialEq, Eq)]
pub enum BufferPoolManagerError {
    /// The page is not resident in the pool.
    PageNotFound,
    /// Every frame holds a pinned page: there is nothing to evict.
    PoolExhausted,
    /// The page has no holder to release.
    PageNotPinned,
}

/// What must happen before a page can be handed out.
#[derive(Debug, Clone, Copy)]
pub enum FetchPlan {
    /// The page is resident in this frame and has been pinned.
    Resident(FrameId),
    /// The page must be read from disk into `frame_id`; where the frame holds a
    /// dirty page, that page's id and bytes must first be written back.
    Load { frame_id: FrameId, write_back: Option<(PageId, [u8; PAGE_SIZE])> },
}

/// The state of a pool as a mathematical value.
pub struct PoolView {
    /// Which frame holds each resident page.
    pub page_table: Map<PageId, FrameId>,
    /// Frames that hold no page, in the order they will be used.
    pub free_list: Seq<FrameId>,
    /// The page held by each occupied frame.
    pub frames: Map<FrameId, Page>,
    pub pool_size: nat,
}

pub open spec fn resident(v: PoolView, page_id: PageId) -> bool {
    v.page_table.contains_key(page_id)
}

/// The page table, the frames and the free list agree, and every frame is
/// counted once: either it holds a resident page or it is free.
pub open spec fn pool_wf(v: PoolView) -> bool {
    &&& forall|p: PageId| #[trigger]
        v.page_table.contains_key(p) ==> {
            &&& v.page_table[p] < v.pool_size
            &&& v.frames.contains_key(v.page_table[p])
            &&& v.frames[v.page_table[p]].id == p
        }
    &&& forall|f: FrameId| #[trigger]
        v.frames.contains_key(f) ==> {
            &&& f < v.pool_size
            &&& v.page_table.contains_key(v.frames[f].id)
            &&& v.page_table[v.frames[f].id] == f
        }
    &&& v.free_list.no_duplicates()
    &&& forall|i: int|
        0 <= i < v.free_list.len() ==> {
            &&& #[trigger] v.free_list[i] < v.pool_size
            &&& !v.frames.contains_key(v.free_list[i])
        }
    &&& v.page_table.dom().finite()
    &&& v.page_table.len() + v.free_list.len() == v.pool_size
}

/// A pool of `pool_size` empty frames, to be used in increasing order.
pub open spec fn initial_pool(pool_size: nat) -> PoolView {
    PoolView {
        page_table: Map::empty(),
        free_list: Seq::new(pool_size, |i: int| i as FrameId),
        frames: Map::empty(),
        pool_size,
    }
}

/// The frame that receives the next page loaded from disk: the first free
/// frame, else the least recently used unpinned one, else none.
pub open spec fn target_frame(v: PoolView) -> Option<FrameId> {
    if v.free_list.len() > 0 {
        Some(v.free_list[0])
    } else if exists|f: FrameId| is_lru_victim(v.frames, f) {
        Some(choose|f: FrameId| is_lru_victim(v.frames, f))
    } else {
        None
    }
}

/// What must be written back before `frame` is reused: its page, if dirty.
pub open spec fn write_back_of(v: PoolView, frame: FrameId) -> Option<(PageId, [u8; PAGE_SIZE])> {
    if v.frames.contains_key(frame) && v.frames[frame].is_dirty {
        Some((v.frames[frame].id, v.frames[frame].data))
    } else {
        None
    }
}

/// The pool once `page` has been loaded into `frame`: a free frame leaves the
/// free list; an occupied frame's page leaves the page table.
pub open spec fn after_load(v: PoolView, frame: FrameId, page: Page) -> PoolView {
    PoolView {
        page_table: if v.free_list.len() > 0 {
            v.page_table.insert(page.id, frame)
        } else {
            v.page_table.remove(v.frames[frame].id).insert(page.id, frame)
        },
        free_list: if v.free_list.len() > 0 {
            v.free_list.drop_first()
        } else {
            v.free_list
        },
        frames: v.frames.insert(frame, page),
        pool_size: v.pool_size,
    }
}

/// The pool with the resident page `page_id` replaced by `page`, in the same frame.
pub open spec fn with_page(v: PoolView, page_id: PageId, page: Page) -> PoolView {
    PoolView { frames: v.frames.insert(v.page_table[page_id], page), ..v }
}

/// A freshly loaded page: pinned once, clean, last used at `at`.
pub open spec fn loaded_page(page_id: PageId, data: [u8; PAGE_SIZE], at: i64) -> Page {
    Page { id: page_id, data, pin_count: 1, is_dirty: false, last_used_at: at }
}

/// The resident page `page_id` can take one more holder without overflow.
pub open spec fn pin_room(v: PoolView, page_id: PageId) -> bool {
    resident(v, page_id) ==> {
        &&& v.frames[v.page_table[page_id]].pin_count < u32::MAX
        &&& v.frames[v.page_table[page_id]].last_used_at < i64::MAX
    }
}

/// The least recently used frame is unique.
pub proof fn lemma_lru_victim_unique(frames: Map<FrameId, Page>, f: FrameId, g: FrameId)
    requires
        is_lru_victim(frames, f),
        is_lru_victim(frames, g),
    ensures
        f == g,
{
    assert(evictable(frames, g));
    assert(evictable(frames, f));
    assert(used_before(frames, f, g));
    assert(used_before(frames, g, f));
}

/// Loading a page that is not resident into the target frame keeps the pool
/// consistent.
pub proof fn lemma_load_preserves_wf(v: PoolView, frame: FrameId, page: Page)
    requires
        pool_wf(v),
        !resident(v, page.id),
        target_frame(v) == Some(frame),
    ensures
        pool_wf(after_load(v, frame, page)),
{
    let w = after_load(v, frame, page);
    if v.free_list.len() > 0 {
        assert(v.free_list[0] == frame);
        assert(!v.frames.contains_key(frame));
        assert forall|i: int| 0 <= i < w.free_list.len() implies {
            &&& #[trigger] w.free_list[i] < w.pool_size
            &&& !w.frames.contains_key(w.free_list[i])
        } by {
            assert(w.free_list[i] == v.free_list[i + 1]);
            assert(v.free_list[i + 1] != v.free_list[0]);
        }
        assert(w.free_list.no_duplicates());
        assert(w.page_table.len() == v.page_table.len() + 1);
    } else {
        let f = choose|f: FrameId| is_lru_victim(v.frames, f);
        assert(is_lru_victim(v.frames, f));
        assert(f == frame);
        let q = v.frames[frame].id;
        assert(v.page_table.contains_key(q));
        assert(q != page.id);
        assert(v.page_table.remove(q).len() == v.page_table.len() - 1);
        assert(!v.page_table.remove(q).contains_key(page.id));
        assert(w.page_table.len() == v.page_table.len());
        assert forall|p: PageId| #[trigger] w.page_table.contains_key(p) implies {
            &&& w.page_table[p] < w.pool_size
            &&& w.frames.contains_key(w.page_table[p])
            &&& w.frames[w.page_table[p]].id == p
        } by {
            if p != page.id {
                assert(v.page_table.contains_key(p));
                assert(v.page_table[p] != frame);
            }
        }
        assert forall|g: FrameId| #[trigger] w.frames.contains_key(g) implies {
            &&& g < w.pool_size
            &&& w.page_table.contains_key(w.frames[g].id)
            &&& w.page_table[w.frames[g].id] == g
        } by {
            if g != frame {
                assert(v.frames.contains_key(g));
                assert(v.frames[g].id != q);
            }
        }
    }
}

/// Replacing a resident page by one with the same id keeps the pool consistent.
pub proof fn lemma_same_page_preserves_wf(v: PoolView, page_id: PageId, page: Page)
    requires
        pool_wf(v),
        resident(v, page_id),
        page.id == page_id,
    ensures
        pool_wf(with_page(v, page_id, page)),
{
    let w = with_page(v, page_id, page);
    assert forall|f: FrameId| #[trigger] w.frames.contains_key(f) implies {
        &&& f < w.pool_size
        &&& w.page_table.contains_key(w.frames[f].id)
        &&& w.page_table[w.frames[f].id] == f
    } by {
        if f != v.page_table[page_id] {
            assert(v.frames.contains_key(f));
        }
    }
    assert forall|i: int| 0 <= i < w.free_list.len() implies {
        &&& #[trigger] w.free_list[i] < w.pool_size
        &&& !w.frames.contains_key(w.free_list[i])
    } by {
        assert(v.free_list[i] != v.page_table[page_id]);
    }
}

/// A page cache of a fixed number of frames.
pub struct BufferPoolManager {
    pages: Frames,
    page_table: HashMap<PageId, FrameId>,
    free_list: VecDeque<FrameId>,
    replacer: LRUReplacer,
    pool_size: usize,
}

/// Where the next page loaded from disk goes.
enum Replacement {
    Free(FrameId),
    Victim(FrameId),
    Full,
}

impl View for BufferPoolManager {
    type V = PoolView;

    closed spec fn view(&self) -> PoolView {
        PoolView {
            page_table: self.page_table@,
            free_list: self.free_list@,
            frames: self.pages@,
            pool_size: self.pool_size as nat,
        }
    }
}

impl BufferPoolManager {
    pub closed spec fn wf(&self) -> bool {
        pool_wf(self@)
    }

    /// A pool of `pool_size` empty frames.
    pub fn new(pool_size: usize) -> (r: Self)
        ensures
            r.wf(),
            r@ == initial_pool(pool_size as nat),
    {
        let mut free_list: VecDeque<FrameId> = VecDeque::new();
        let mut i: usize = 0;
        while i < pool_size
            invariant
                i <= pool_size,
                free_list@ == Seq::new(i as nat, |k: int| k as FrameId),
            decreases pool_size - i,
        {
            free_list.push_back(i);
            i = i + 1;
            assert(free_list@ =~= Seq::new(i as nat, |k: int| k as FrameId));
        }
        let r = BufferPoolManager {
            pages: Frames::new(),
            page_table: HashMap::new(),
            free_list,
            replacer: LRUReplacer,
            pool_size,
        };
        assert(r@.page_table =~= Map::empty());
        assert(r@ == initial_pool(pool_size as nat));
        r
    }

    /// The first free frame, else the least recently used unpinned frame.
    fn find_replacement(&self) -> (r: Replacement)
        requires
            self.wf(),
        ensures
            match r {
                Replacement::Free(f) => self@.free_list.len() > 0 && target_frame(self@) == Some(f),
                Replacement::Victim(f) => self@.free_list.len() == 0 && target_frame(self@) == Some(
                    f,
                ) && self@.frames.contains_key(f),
                Replacement::Full => target_frame(self@) is None,
            },
    {
        if self.free_list.len() > 0 {
            return Replacement::Free(self.free_list[0]);
        }
        match self.replacer.lru_victim(&self.pages) {
            Some(f) => {
                proof {
                    let g = choose|g: FrameId| is_lru_victim(self@.frames, g);
                    lemma_lru_victim_unique(self@.frames, f, g);
                }
                Replacement::Victim(f)
            },
            None => {
                assert(!exists|f: FrameId| is_lru_victim(self@.frames, f));
                Replacement::Full
            },
        }
    }

    /// Pins `page_id` where it is resident; otherwise says which frame it must be
    /// read into and what must be written back first, without changing the pool.
    /// Fails with `PoolExhausted`, the pool unchanged, where every frame is pinned.
    pub fn fetch_page(&mut self, page_id: PageId) -> (r: Result<FetchPlan, BufferPoolManagerError>)
        requires
            old(self).wf(),
            pin_room(old(self)@, page_id),
        ensures
            final(self).wf(),
            resident(old(self)@, page_id) ==> {
                let f = old(self)@.page_table[page_id];
                let before = old(self)@.frames[f];
                let after = final(self)@.frames[f];
                &&& r == Ok::<FetchPlan, BufferPoolManagerError>(FetchPlan::Resident(f))
                &&& final(self)@ == with_page(
                    old(self)@,
                    page_id,
                    Page { pin_count: (before.pin_count + 1) as u32, last_used_at: after.last_used_at, ..before },
                )
                &&& after.last_used_at > before.last_used_at
            },
            !resident(old(self)@, page_id) ==> final(self)@ == old(self)@ && match target_frame(
                old(self)@,
            ) {
                Some(f) => r == Ok::<FetchPlan, BufferPoolManagerError>(
                    FetchPlan::Load { frame_id: f, write_back: write_back_of(old(self)@, f) },
                ),
                None => r == Err::<FetchPlan, BufferPoolManagerError>(
                    BufferPoolManagerError::PoolExhausted,
                ),
            },
    {
        let ghost v = self@;
        if let Some(f) = self.page_table.get(&page_id) {
            let f = *f;
            let mut page = *self.pages.get(f).unwrap();
            page.pin();
            self.pages.insert(f, page);
            proof {
                lemma_same_page_preserves_wf(v, page_id, page);
            }
            return Ok(FetchPlan::Resident(f));
        }
        match self.find_replacement() {
            Replacement::Free(f) => Ok(FetchPlan::Load { frame_id: f, write_back: None }),
            Replacement::Victim(f) => {
                let p = self.pages.get(f).unwrap();
                let write_back = if p.is_dirty {
                    Some((p.id, p.data))
                } else {
                    None
                };
                Ok(FetchPlan::Load { frame_id: f, write_back })
            },
            Replacement::Full => Err(BufferPoolManagerError::PoolExhausted),
        }
    }

    /// Installs `data`, just read from disk, as page `page_id` in the target frame,
    /// pinned once and clean; the frame's previous page, if any, leaves the pool.
    pub fn complete_fetch(&mut self, page_id: PageId, data: [u8; PAGE_SIZE]) -> (r: FrameId)
        requires
            old(self).wf(),
            !resident(old(self)@, page_id),
            target_frame(old(self)@) is Some,
        ensures
            final(self).wf(),
            Some(r) == target_frame(old(self)@),
            final(self)@ == after_load(
                old(self)@,
                r,
                loaded_page(page_id, data, final(self)@.frames[r].last_used_at),
            ),
    {
        let ghost v = self@;
        let f = match self.find_replacement() {
            Replacement::Free(f) => {
                self.free_list.pop_front();
                f
            },
            Replacement::Victim(f) => {
                let old_id = self.pages.get(f).unwrap().id;
                self.page_table.remove(&old_id);
                f
            },
            Replacement::Full => {
                proof {
                    assert(false);
                }
                0
            },
        };
        let mut page = Page::new(page_id, data);
        page.pin_count = 1;
        self.pages.insert(f, page);
        self.page_table.insert(page_id, f);
        proof {
            assert(page == loaded_page(page_id, data, page.last_used_at));
            assert(self@.free_list =~= after_load(v, f, page).free_list);
            assert(self@.page_table =~= after_load(v, f, page).page_table);
            lemma_load_preserves_wf(v, f, page);
        }
        f
    }

    /// Releases one holder of `page_id`. Fails, the pool unchanged, with
    /// `PageNotFound` where the page is not resident and with `PageNotPinned`
    /// where it has no holder.
    pub fn unpin(&mut self, page_id: PageId) -> (r: Result<(), BufferPoolManagerError>)
        requires
            old(self).wf(),
        ensures
            final(self).wf(),
            !resident(old(self)@, page_id) ==> r == Err::<(), BufferPoolManagerError>(
                BufferPoolManagerError::PageNotFound,
            ) && final(self)@ == old(self)@,
            resident(old(self)@, page_id) ==> {
                let before = old(self)@.frames[old(self)@.page_table[page_id]];
                &&& before.pin_count == 0 ==> r == Err::<(), BufferPoolManagerError>(
                    BufferPoolManagerError::PageNotPinned,
                ) && final(self)@ == old(self)@
                &&& before.pin_count > 0 ==> r is Ok && final(self)@ == with_page(
                    old(self)@,
                    page_id,
                    Page { pin_count: (before.pin_count - 1) as u32, ..before },
                )
            },
    {
        let ghost v = self@;
        let f = match self.page_table.get(&page_id) {
            Some(f) => *f,
            None => return Err(BufferPoolManagerError::PageNotFound),
        };
        let mut page = *self.pages.get(f).unwrap();
        match page.unpin() {
            Ok(()) => {
                self.pages.insert(f, page);
                proof {
                    lemma_same_page_preserves_wf(v, page_id, page);
                }
                Ok(())
            },
            Err(e) => Err(e),
        }
    }

    /// Replaces the bytes of the resident page `page_id` and marks it dirty, so
    /// that they are written back before its frame is reused. Fails with
    /// `PageNotFound`, the pool unchanged, where the page is not resident.
    pub fn update_page(&mut self, page_id: PageId, data: [u8; PAGE_SIZE]) -> (r: Result<
        (),
        BufferPoolManagerError,
    >)
        requires
            old(self).wf(),
        ensures
            final(self).wf(),
            !resident(old(self)@, page_id) ==> r == Err::<(), BufferPoolManagerError>(
                BufferPoolManagerError::PageNotFound,
            ) && final(self)@ == old(self)@,
            resident(old(self)@, page_id) ==> r is Ok && final(self)@ == with_page(
                old(self)@,
                page_id,
                Page { data, is_dirty: true, ..old(self)@.frames[old(self)@.page_table[page_id]] },
            ),
    {
        let ghost v = self@;
        let f = match self.page_table.get(&page_id) {
            Some(f) => *f,
            None => return Err(BufferPoolManagerError::PageNotFound),
        };
        let mut page = *self.pages.get(f).unwrap();
        page.data = data;
        page.is_dirty = true;
        self.pages.insert(f, page);
        proof {
            lemma_same_page_preserves_wf(v, page_id, page);
        }
        Ok(())
    }

    /// The resident page `page_id`, if any.
    pub fn page(&self, page_id: PageId) -> (r: Option<&Page>)
        requires
            self.wf(),
        ensures
            resident(self@, page_id) ==> r == Some(&self@.frames[self@.page_table[page_id]]),
            !resident(self@, page_id) ==> r is None,
    {
        match self.page_table.get(&page_id) {
            Some(f) => self.pages.get(*f),
            None => None,
        }
    }

    /// Whether `page_id` is resident.
    pub fn is_resident(&self, page_id: PageId) -> (r: bool)
        ensures
            r == resident(self@, page_id),
    {
        self.page_table.contains_key(&page_id)
    }

    /// Whether a fetch of `page_id` can pin it without overflowing its counters.
    pub fn has_pin_room(&self, page_id: PageId) -> (r: bool)
        requires
            self.wf(),
        ensures
            r == pin_room(self@, page_id),
    {
        match self.page(page_id) {
            Some(p) => p.pin_count < u32::MAX && p.last_used_at < i64::MAX,
            None => true,
        }
    }

    /// The number of resident pages.
    pub fn resident_count(&self) -> (r: usize)
        requires
            self.wf(),
        ensures
            r == self@.page_table.len(),
    {
        self.page_table.len()
    }

    /// The number of free frames.
    pub fn free_count(&self) -> (r: usize)
        ensures
            r == self@.free_list.len(),
    {
        self.free_list.len()
    }

    /// The number of frames.
    pub fn pool_size(&self) -> (r: usize)
        ensures
            r == self@.pool_size,
    {
        self.pool_size
    }
}

/// Every frame is counted once: the resident pages and the free frames
/// together make up the pool.
pub proof fn lemma_capacity(v: PoolView)
    requires
        pool_wf(v),
    ensures
        v.page_table.len() + v.free_list.len() == v.pool_size,
{
}

/// A new pool is consistent.
pub proof fn lemma_initial_wf(pool_size: nat)
    requires
        pool_size <= usize::MAX,
    ensures
        pool_wf(initial_pool(pool_size)),
{
    let v = initial_pool(pool_size);
    assert forall|i: int, j: int|
        0 <= i < v.free_list.len() && 0 <= j < v.free_list.len() && i != j implies v.free_list[i]
        != v.free_list[j] by {
        assert(v.free_list[i] == i as FrameId);
        assert(v.free_list[j] == j as FrameId);
    }
}

/// The pool after loading each of `pages` in turn into the target frame.
pub open spec fn load_in_turn(v: PoolView, pages: Seq<Page>) -> PoolView
    decreases pages.len(),
{
    if pages.len() == 0 {
        v
    } else {
        let w = load_in_turn(v, pages.drop_last());
        after_load(w, target_frame(w)->Some_0, pages.last())
    }
}

/// Each load of the sequence finds its page absent and a target frame.
pub open spec fn loads_succeed(v: PoolView, pages: Seq<Page>) -> bool {
    forall|k: int|
        0 <= k < pages.len() ==> {
            let w = #[trigger] load_in_turn(v, pages.subrange(0, k));
            &&& !resident(w, pages[k].id)
            &&& target_frame(w) is Some
        }
}

proof fn lemma_fill_step(n: nat, pages: Seq<Page>, k: nat)
    requires
        k <= pages.len() <= n,
        n <= usize::MAX,
        forall|i: int, j: int|
            0 <= i < j < pages.len() ==> #[trigger] pages[i].id != #[trigger] pages[j].id,
        forall|i: int| 0 <= i < pages.len() ==> #[trigger] pages[i].pin_count > 0,
    ensures
        ({
            let w = load_in_turn(initial_pool(n), pages.subrange(0, k as int));
            &&& pool_wf(w)
            &&& w.pool_size == n
            &&& w.free_list.len() == n - k
            &&& forall|p: PageId|
                #[trigger] resident(w, p) <==> exists|i: int| 0 <= i < k && pages[i].id == p
            &&& forall|f: FrameId| #[trigger] w.frames.contains_key(f) ==> w.frames[f].pin_count > 0
        }),
    decreases k,
{
    let s = pages.subrange(0, k as int);
    let w = load_in_turn(initial_pool(n), s);
    if k == 0 {
        lemma_initial_wf(n);
        assert(w == initial_pool(n));
    } else {
        lemma_fill_step(n, pages, (k - 1) as nat);
        let u = load_in_turn(initial_pool(n), pages.subrange(0, k - 1));
        assert(s.drop_last() =~= pages.subrange(0, k - 1));
        let page = pages[k - 1];
        assert(s.last() == page);
        assert(u.free_list.len() > 0);
        if resident(u, page.id) {
            let i = choose|i: int| 0 <= i < k - 1 && pages[i].id == page.id;
            assert(pages[i].id != pages[k - 1].id);
        }
        lemma_load_preserves_wf(u, u.free_list[0], page);
        assert forall|p: PageId| #[trigger]
            resident(w, p) <==> exists|i: int| 0 <= i < k && pages[i].id == p by {
            if resident(w, p) && p != page.id {
                assert(resident(u, p));
            }
            if exists|i: int| 0 <= i < k && pages[i].id == p {
                let i = choose|i: int| 0 <= i < k && pages[i].id == p;
                if i < k - 1 {
                    assert(resident(u, p));
                }
            }
        }
    }
}

/// Fetching `n` distinct pages into a new pool of `n` frames succeeds at each
/// step and fills the pool; with all of them pinned, there is no frame left
/// for any further page.
pub proof fn lemma_fill_pool(n: nat, pages: Seq<Page>)
    requires
        pages.len() == n,
        n <= usize::MAX,
        forall|i: int, j: int|
            0 <= i < j < pages.len() ==> #[trigger] pages[i].id != #[trigger] pages[j].id,
        forall|i: int| 0 <= i < pages.len() ==> #[trigger] pages[i].pin_count > 0,
    ensures
        loads_succeed(initial_pool(n), pages),
        ({
            let w = load_in_turn(initial_pool(n), pages);
            &&& pool_wf(w)
            &&& w.free_list.len() == 0
            &&& w.page_table.len() == n
            &&& target_frame(w) is None
        }),
{
    assert forall|k: int| 0 <= k < pages.len() implies {
        let w = #[trigger] load_in_turn(initial_pool(n), pages.subrange(0, k));
        &&& !resident(w, pages[k].id)
        &&& target_frame(w) is Some
    } by {
        lemma_fill_step(n, pages, k as nat);
        let w = load_in_turn(initial_pool(n), pages.subrange(0, k));
        if resident(w, pages[k].id) {
            let i = choose|i: int| 0 <= i < k && pages[i].id == pages[k].id;
            assert(pages[i].id != pages[k].id);
        }
    }
    lemma_fill_step(n, pages, n);
    assert(pages.subrange(0, n as int) =~= pages);
    let w = load_in_turn(initial_pool(n), pages);
    if exists|f: FrameId| is_lru_victim(w.frames, f) {
        let f = choose|f: FrameId| is_lru_victim(w.frames, f);
        assert(evictable(w.frames, f));
    }
}

/// In a full pool, a page that is not resident is loaded into the frame of the
/// least recently used unpinned page, which alone leaves the page table; that
/// page is to be written back exactly when it is dirty.
pub proof fn lemma_full_pool_evicts_lru(v: PoolView, page: Page)
    requires
        pool_wf(v),
        v.free_list.len() == 0,
        !resident(v, page.id),
        exists|f: FrameId| evictable(v.frames, f),
    ensures
        ({
            let f = target_frame(v)->Some_0;
            let w = after_load(v, f, page);
            &&& target_frame(v) is Some
            &&& is_lru_victim(v.frames, f)
            &&& w.page_table.dom() == v.page_table.dom().remove(v.frames[f].id).insert(page.id)
            &&& (write_back_of(v, f) is Some) == v.frames[f].is_dirty
        }),
{
    let e = choose|f: FrameId| evictable(v.frames, f);
    lemma_lru_victim_exists(v.frames, e, v.pool_size);
    let f = target_frame(v)->Some_0;
    assert(is_lru_victim(v.frames, f));
    let w = after_load(v, f, page);
    assert(w.page_table.dom() =~= v.page_table.dom().remove(v.frames[f].id).insert(page.id));
}

} // verus!
