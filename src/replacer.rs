use vstd::prelude::*;

use crate::{FrameId, Page};

verus! {

/// The frames of a pool, each empty or holding one page, indexed by `FrameId`.
pub struct Frames {
    slots: Vec<Option<Page>>,
}

impl View for Frames {
    type V = Map<FrameId, Page>;

    /// The occupied frames and the page that each one holds.
    closed spec fn view(&self) -> Map<FrameId, Page> {
        Map::new(
            |f: FrameId| (f as int) < self.slots@.len() && self.slots@[f as int] is Some,
            |f: FrameId| self.slots@[f as int]->Some_0,
        )
    }
}

/// Frame `f` holds a page that nobody has pinned.
pub open spec fn evictable(frames: Map<FrameId, Page>, f: FrameId) -> bool {
    frames.contains_key(f) && frames[f].pin_count == 0
}

/// Frame `f` was used before frame `g`, or at the same time with a lower id.
pub open spec fn used_before(frames: Map<FrameId, Page>, f: FrameId, g: FrameId) -> bool {
    frames[f].last_used_at < frames[g].last_used_at || (frames[f].last_used_at
        == frames[g].last_used_at && f <= g)
}

/// Frame `f` is the least recently used of the evictable frames; ties go to
/// the lowest frame id.
pub open spec fn is_lru_victim(frames: Map<FrameId, Page>, f: FrameId) -> bool {
    &&& evictable(frames, f)
    &&& forall|g: FrameId| #[trigger] evictable(frames, g) ==> used_before(frames, f, g)
}

/// Among the evictable frames below `k`, one is used before all the others.
proof fn lemma_lru_below(frames: Map<FrameId, Page>, k: nat)
    ensures
        (exists|f: FrameId| f < k && #[trigger] evictable(frames, f)) ==> exists|b: FrameId|
            b < k && evictable(frames, b) && forall|g: FrameId|
                g < k && #[trigger] evictable(frames, g) ==> used_before(frames, b, g),
    decreases k,
{
    if k > 0 {
        let j = (k - 1) as FrameId;
        lemma_lru_below(frames, (k - 1) as nat);
        if exists|f: FrameId| f < k && #[trigger] evictable(frames, f) {
            if exists|f: FrameId| f < k - 1 && #[trigger] evictable(frames, f) {
                let b = choose|b: FrameId|
                    b < k - 1 && evictable(frames, b) && forall|g: FrameId|
                        g < k - 1 && #[trigger] evictable(frames, g) ==> used_before(frames, b, g);
                if evictable(frames, j) && frames[j].last_used_at < frames[b].last_used_at {
                    assert forall|g: FrameId|
                        g < k && #[trigger] evictable(frames, g) implies used_before(
                        frames,
                        j,
                        g,
                    ) by {
                        if g < k - 1 {
                            assert(used_before(frames, b, g));
                        }
                    }
                } else {
                    assert forall|g: FrameId|
                        g < k && #[trigger] evictable(frames, g) implies used_before(
                        frames,
                        b,
                        g,
                    ) by {
                        if g < k - 1 {
                            assert(used_before(frames, b, g));
                        }
                    }
                }
            } else {
                assert(evictable(frames, j));
                assert forall|g: FrameId|
                    g < k && #[trigger] evictable(frames, g) implies used_before(frames, j, g) by {
                    if g < k - 1 {
                        assert(!evictable(frames, g));
                    }
                }
            }
        }
    }
}

/// Where frame ids are bounded, a least recently used frame exists as soon as
/// one frame is evictable.
pub proof fn lemma_lru_victim_exists(frames: Map<FrameId, Page>, e: FrameId, bound: nat)
    requires
        evictable(frames, e),
        forall|f: FrameId| #[trigger] evictable(frames, f) ==> f < bound,
    ensures
        exists|f: FrameId| is_lru_victim(frames, f),
{
    lemma_lru_below(frames, bound);
    assert(e < bound);
    let b = choose|b: FrameId|
        b < bound && evictable(frames, b) && forall|g: FrameId|
            g < bound && #[trigger] evictable(frames, g) ==> used_before(frames, b, g);
    assert(is_lru_victim(frames, b));
}

impl Frames {
    /// No frame at all.
    pub fn new() -> (r: Frames)
        ensures
            r@ == Map::<FrameId, Page>::empty(),
    {
        let r = Frames { slots: Vec::new() };
        assert(r@ =~= Map::<FrameId, Page>::empty());
        r
    }

    /// Places `page` in frame `frame_id` and returns what the frame held before.
    pub fn insert(&mut self, frame_id: FrameId, page: Page) -> (r: Option<Page>)
        requires
            frame_id < usize::MAX,
        ensures
            final(self)@ == old(self)@.insert(frame_id, page),
            r == (if old(self)@.contains_key(frame_id) {
                Some(old(self)@[frame_id])
            } else {
                None::<Page>
            }),
    {
        let ghost before = self@;
        while self.slots.len() <= frame_id
            invariant
                self@ == before,
                frame_id < usize::MAX,
            decreases frame_id + 1 - self.slots.len(),
        {
            self.slots.push(None);
            assert(self@ =~= before);
        }
        let prior = self.slots[frame_id];
        self.slots.set(frame_id, Some(page));
        assert(self@ =~= before.insert(frame_id, page));
        prior
    }

    /// Empties frame `frame_id` and returns what it held.
    pub fn remove(&mut self, frame_id: FrameId) -> (r: Option<Page>)
        ensures
            final(self)@ == old(self)@.remove(frame_id),
            r == (if old(self)@.contains_key(frame_id) {
                Some(old(self)@[frame_id])
            } else {
                None::<Page>
            }),
    {
        let ghost before = self@;
        if frame_id < self.slots.len() {
            let prior = self.slots[frame_id];
            self.slots.set(frame_id, None);
            assert(self@ =~= before.remove(frame_id));
            prior
        } else {
            assert(self@ =~= before.remove(frame_id));
            None
        }
    }

    /// The page that frame `frame_id` holds, if any.
    pub fn get(&self, frame_id: FrameId) -> (r: Option<&Page>)
        ensures
            r == (if self@.contains_key(frame_id) {
                Some(&self@[frame_id])
            } else {
                None::<&Page>
            }),
    {
        if frame_id < self.slots.len() {
            match &self.slots[frame_id] {
                Some(p) => Some(p),
                None => None,
            }
        } else {
            None
        }
    }

    /// Whether frame `frame_id` holds a page.
    pub fn contains_key(&self, frame_id: FrameId) -> (r: bool)
        ensures
            r == self@.contains_key(frame_id),
    {
        frame_id < self.slots.len() && self.slots[frame_id].is_some()
    }
}

/// A policy that picks the frame to evict.
pub trait Replacer: Sized {
    fn new() -> Self;

    /// An evictable frame, or `None` where every page is pinned or no frame is occupied.
    fn victim(&self, frames: &mut Frames) -> (r: Option<FrameId>)
        ensures
            final(frames)@ == old(frames)@,
            match r {
                Some(f) => evictable(old(frames)@, f),
                None => forall|g: FrameId| !evictable(old(frames)@, g),
            },
    ;
}

/// Evicts the least recently used unpinned page.
pub struct LRUReplacer;

impl LRUReplacer {
    /// The least recently used unpinned frame; ties go to the lowest frame id.
    pub fn lru_victim(&self, frames: &Frames) -> (r: Option<FrameId>)
        ensures
            match r {
                Some(f) => is_lru_victim(frames@, f),
                None => forall|g: FrameId| !evictable(frames@, g),
            },
    {
        let mut best: Option<(FrameId, i64)> = None;
        let mut i: usize = 0;
        while i < frames.slots.len()
            invariant
                i <= frames.slots@.len(),
                match best {
                    Some((b, t)) => {
                        &&& b < i
                        &&& evictable(frames@, b)
                        &&& frames@[b].last_used_at == t
                        &&& forall|g: FrameId|
                            g < i && #[trigger] evictable(frames@, g) ==> used_before(
                                frames@,
                                b,
                                g,
                            )
                    },
                    None => forall|g: FrameId| g < i ==> !#[trigger] evictable(frames@, g),
                },
            decreases frames.slots@.len() - i,
        {
            if let Some(p) = &frames.slots[i] {
                if p.pin_count == 0 {
                    match best {
                        None => {
                            best = Some((i, p.last_used_at));
                        },
                        Some((_, t)) => {
                            if p.last_used_at < t {
                                best = Some((i, p.last_used_at));
                            }
                        },
                    }
                }
            }
            i = i + 1;
        }
        match best {
            Some((b, _)) => Some(b),
            None => None,
        }
    }
}

impl Replacer for LRUReplacer {
    fn new() -> Self {
        LRUReplacer
    }

    /// The least recently used unpinned frame; ties go to the lowest frame id.
    fn victim(&self, frames: &mut Frames) -> (r: Option<FrameId>)
        ensures
            match r {
                Some(f) => is_lru_victim(old(frames)@, f),
                None => true,
            },
    {
        self.lru_victim(frames)
    }
}

} // verus!
