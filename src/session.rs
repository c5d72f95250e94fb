use vstd::prelude::*;

use crate::context::ContextGuard;
use crate::error::BridgeError;
use crate::record::Record;

verus! {

/// One scope frame: a unique id, the slot capacity declared when it was
/// opened, and the number of slots taken so far.
#[derive(Debug)]
pub struct Frame {
    pub id: u64,
    pub capacity: usize,
    pub used: usize,
}

/// Who keeps a host value alive for a handle.
#[derive(Clone, Copy, Debug, PartialEq, Eq)]
pub enum Owner {
    /// Rooted in the scope frame with this id.
    Frame(u64),
    /// Leaked past the outermost frame during the given GC epoch; nothing
    /// roots it, so it is valid only until the collector may next run.
    Unrooted(u64),
    /// Embedded in a foreign record whose trace function reports it.
    Traced,
}

/// A reference to a value on the host's collected heap.
#[derive(Clone, Copy, Debug, PartialEq, Eq)]
pub struct Handle {
    pub obj: usize,
    pub owner: Owner,
}

/// The state of one native call that holds the host thread's guard: its
/// stack of scope frames, whether the thread is in a GC-safe region, the GC
/// epoch, and the values that the host heap holds.
pub struct Session {
    guard: ContextGuard,
    frames: Vec<Frame>,
    next_id: u64,
    epoch: u64,
    safe: bool,
    heap: Vec<Record>,
}

impl Session {
    pub closed spec fn spec_frames(&self) -> Seq<Frame> {
        self.frames@
    }

    pub closed spec fn spec_heap(&self) -> Seq<Record> {
        self.heap@
    }

    /// The id that the next frame to be opened receives.
    pub closed spec fn spec_next_id(&self) -> u64 {
        self.next_id
    }

    /// Counts the GC-safe regions entered so far.
    pub closed spec fn spec_epoch(&self) -> u64 {
        self.epoch
    }

    /// True inside a GC-safe region.
    pub closed spec fn spec_safe(&self) -> bool {
        self.safe
    }

    /// Frame ids grow strictly from the outermost frame inwards and stay
    /// below the next id; no frame holds more handles than its capacity.
    pub closed spec fn wf(&self) -> bool {
        &&& forall|i: int, j: int|
            0 <= i < j < self.frames@.len() ==> #[trigger] self.frames@[i].id
                < #[trigger] self.frames@[j].id
        &&& forall|i: int| 0 <= i < self.frames@.len() ==> #[trigger] self.frames@[i].id < self.next_id
        &&& forall|i: int|
            0 <= i < self.frames@.len() ==> #[trigger] self.frames@[i].used <= self.frames@[i].capacity
        &&& forall|i: int| 0 <= i < self.heap@.len() ==> self.fits(#[trigger] self.heap@[i])
    }

    /// A record may be stored on this heap: a foreign record's embedded
    /// reference points to a value already there and is reported by its
    /// trace function.
    pub open spec fn fits(&self, rec: Record) -> bool {
        rec is Agent ==> {
            &&& rec->Agent_0.spec_callback().obj < self.spec_heap().len()
            &&& rec->Agent_0.spec_callback().owner is Traced
        }
    }

    /// The frame with this id is open.
    pub open spec fn frame_open(&self, id: u64) -> bool {
        exists|i: int| 0 <= i < self.spec_frames().len() && #[trigger] self.spec_frames()[i].id == id
    }

    /// The frame with this id was opened and has been closed since.
    pub open spec fn frame_closed(&self, id: u64) -> bool {
        id < self.spec_next_id() && !self.frame_open(id)
    }

    /// The innermost open frame.
    pub open spec fn top(&self) -> Frame
        recommends
            self.spec_frames().len() > 0,
    {
        self.spec_frames().last()
    }

    /// The value behind the handle may still be used: it is on the heap and
    /// its owner still keeps it alive.
    pub open spec fn live(&self, h: Handle) -> bool {
        &&& h.obj < self.spec_heap().len()
        &&& match h.owner {
            Owner::Frame(id) => self.frame_open(id),
            Owner::Unrooted(e) => e == self.spec_epoch(),
            Owner::Traced => true,
        }
    }

    /// The handle may be dereferenced now: it is live and the thread is in a
    /// GC-unsafe region.
    pub open spec fn accessible(&self, h: Handle) -> bool {
        !self.spec_safe() && self.live(h)
    }

    /// Every frame closed before stays closed.
    pub open spec fn keeps_closed(&self, next: &Session) -> bool {
        &&& self.spec_next_id() <= next.spec_next_id()
        &&& forall|id: u64| self.frame_closed(id) ==> #[trigger] next.frame_closed(id)
    }

    /// Starts a call under the guard, in GC-unsafe mode, with no frame open.
    pub fn enter(guard: ContextGuard) -> (s: Session)
        ensures
            s.wf(),
            s.spec_frames().len() == 0,
            s.spec_heap().len() == 0,
            s.spec_next_id() == 0,
            s.spec_epoch() == 0,
            !s.spec_safe(),
    {
        Session { guard, frames: Vec::new(), next_id: 0, epoch: 0, safe: false, heap: Vec::new() }
    }

    /// Ends the call and hands the guard back, to be released.
    pub fn finish(self) -> (g: ContextGuard) {
        self.guard
    }

    pub fn is_safe(&self) -> (r: bool)
        ensures
            r == self.spec_safe(),
    {
        self.safe
    }

    pub fn depth(&self) -> (r: usize)
        ensures
            r == self.spec_frames().len(),
    {
        self.frames.len()
    }

    pub fn next_frame_id(&self) -> (r: u64)
        ensures
            r == self.spec_next_id(),
    {
        self.next_id
    }

    /// Opens a frame nested in the current one, with room for `capacity`
    /// handles, and returns its id.
    pub fn open_frame(&mut self, capacity: usize) -> (id: u64)
        requires
            old(self).wf(),
            !old(self).spec_safe(),
            old(self).spec_next_id() < u64::MAX,
        ensures
            final(self).wf(),
            id == old(self).spec_next_id(),
            final(self).spec_frames() == old(self).spec_frames().push(
                Frame { id, capacity, used: 0 },
            ),
            final(self).spec_next_id() == old(self).spec_next_id() + 1,
            final(self).spec_heap() == old(self).spec_heap(),
            final(self).spec_epoch() == old(self).spec_epoch(),
            final(self).spec_safe() == old(self).spec_safe(),
            old(self).keeps_closed(final(self)),
            forall|h: Handle| old(self).live(h) ==> #[trigger] final(self).live(h),
    {
        let id = self.next_id;
        self.frames.push(Frame { id, capacity, used: 0 });
        self.next_id = id + 1;
        proof {
            assert forall|h: Handle| old(self).live(h) implies #[trigger] self.live(h) by {
                if let Owner::Frame(x) = h.owner {
                    let i = choose|i: int|
                        0 <= i < old(self).spec_frames().len() && #[trigger] old(self).spec_frames()[i].id
                            == x;
                    assert(self.spec_frames()[i].id == x);
                }
            }
            assert forall|x: u64| old(self).frame_closed(x) implies self.frame_closed(x) by {
                if self.frame_open(x) {
                    let i = choose|i: int|
                        0 <= i < self.spec_frames().len() && #[trigger] self.spec_frames()[i].id
                            == x;
                    if i < old(self).spec_frames().len() {
                        assert(old(self).spec_frames()[i].id == x);
                    }
                }
            }
        }
        id
    }

    /// Closes the innermost frame; every handle rooted in it becomes dead.
    pub fn close_frame(&mut self)
        requires
            old(self).wf(),
            !old(self).spec_safe(),
            old(self).spec_frames().len() > 0,
        ensures
            final(self).wf(),
            final(self).spec_frames() == old(self).spec_frames().drop_last(),
            final(self).spec_next_id() == old(self).spec_next_id(),
            final(self).spec_heap() == old(self).spec_heap(),
            final(self).spec_epoch() == old(self).spec_epoch(),
            final(self).spec_safe() == old(self).spec_safe(),
            final(self).frame_closed(old(self).top().id),
            old(self).keeps_closed(final(self)),
    {
        self.frames.pop();
        proof {
            let t = old(self).top().id;
            let n = old(self).spec_frames().len();
            assert(old(self).spec_frames()[n - 1].id == t);
            assert(!self.frame_open(t)) by {
                if self.frame_open(t) {
                    let i = choose|i: int|
                        0 <= i < self.spec_frames().len() && #[trigger] self.spec_frames()[i].id
                            == t;
                    assert(old(self).spec_frames()[i].id < old(self).spec_frames()[n - 1].id);
                }
            }
            assert forall|x: u64| old(self).frame_closed(x) implies self.frame_closed(x) by {
                if self.frame_open(x) {
                    let i = choose|i: int|
                        0 <= i < self.spec_frames().len() && #[trigger] self.spec_frames()[i].id
                            == x;
                    assert(old(self).spec_frames()[i].id == x);
                }
            }
        }
    }

    /// Boxes a record on the host heap and roots it in the innermost frame.
    /// Fails with `CapacityExceeded`, and changes nothing, when that frame
    /// is full.
    pub fn box_record(&mut self, rec: Record) -> (r: Result<Handle, BridgeError>)
        requires
            old(self).wf(),
            !old(self).spec_safe(),
            old(self).spec_frames().len() > 0,
            old(self).fits(rec),
        ensures
            final(self).wf(),
            final(self).spec_next_id() == old(self).spec_next_id(),
            final(self).spec_epoch() == old(self).spec_epoch(),
            final(self).spec_safe() == old(self).spec_safe(),
            old(self).keeps_closed(final(self)),
            forall|h: Handle| old(self).live(h) ==> #[trigger] final(self).live(h),
            final(self).spec_frames().len() == old(self).spec_frames().len(),
            final(self).top().id == old(self).top().id,
            r is Ok ==> final(self).live(r->Ok_0),
            old(self).top().used == old(self).top().capacity ==> r == Err::<Handle, BridgeError>(
                BridgeError::CapacityExceeded,
            ) && *final(self) == *old(self),
            old(self).top().used < old(self).top().capacity ==> r is Ok
                && r->Ok_0.obj == old(self).spec_heap().len()
                && r->Ok_0.owner == Owner::Frame(old(self).top().id)
                && final(self).spec_heap() == old(self).spec_heap().push(rec)
                && final(self).spec_frames() == old(self).spec_frames().update(
                old(self).spec_frames().len() - 1,
                Frame { used: (old(self).top().used + 1) as usize, ..old(self).top() },
            ),
    {
        let last = self.frames.len() - 1;
        let id = self.frames[last].id;
        let capacity = self.frames[last].capacity;
        let used = self.frames[last].used;
        if used == capacity {
            return Err(BridgeError::CapacityExceeded);
        }
        let obj = self.heap.len();
        self.heap.push(rec);
        proof {
            assert forall|i: int| 0 <= i < self.heap@.len() implies self.fits(
                #[trigger] self.heap@[i],
            ) by {
                if i < old(self).heap@.len() {
                    assert(old(self).fits(old(self).heap@[i]));
                }
            }
        }
        self.frames.set(last, Frame { id, capacity, used: used + 1 });
        proof {
            assert forall|h: Handle| old(self).live(h) implies #[trigger] self.live(h) by {
                if let Owner::Frame(x) = h.owner {
                    let i = choose|i: int|
                        0 <= i < old(self).spec_frames().len() && #[trigger] old(self).spec_frames()[i].id
                            == x;
                    assert(self.spec_frames()[i].id == x);
                }
            }
            assert forall|x: u64| old(self).frame_closed(x) implies self.frame_closed(x) by {
                if self.frame_open(x) {
                    let i = choose|i: int|
                        0 <= i < self.spec_frames().len() && #[trigger] self.spec_frames()[i].id
                            == x;
                    assert(old(self).spec_frames()[i].id == x);
                }
            }
        }
        proof {
            assert(self.spec_frames()[last as int].id == id);
        }
        Ok(Handle { obj, owner: Owner::Frame(id) })
    }

    /// Promotes a handle rooted in the innermost frame: to the parent frame,
    /// or, from the outermost frame, out to the caller as an unrooted handle
    /// of the current GC epoch.
    pub fn leak(&self, h: Handle) -> (r: Handle)
        requires
            self.wf(),
            self.spec_frames().len() > 0,
            self.live(h),
            h.owner == Owner::Frame(self.top().id),
        ensures
            r.obj == h.obj,
            self.spec_frames().len() > 1 ==> r.owner == Owner::Frame(
                self.spec_frames()[self.spec_frames().len() - 2].id,
            ),
            self.spec_frames().len() == 1 ==> r.owner == Owner::Unrooted(self.spec_epoch()),
    {
        let n = self.frames.len();
        if n > 1 {
            Handle { obj: h.obj, owner: Owner::Frame(self.frames[n - 2].id) }
        } else {
            Handle { obj: h.obj, owner: Owner::Unrooted(self.epoch) }
        }
    }

    /// Roots a live handle in the innermost frame again, so that it stays
    /// valid for as long as that frame is open. Fails with
    /// `CapacityExceeded`, and changes nothing, when the frame is full.
    pub fn root(&mut self, h: Handle) -> (r: Result<Handle, BridgeError>)
        requires
            old(self).wf(),
            !old(self).spec_safe(),
            old(self).spec_frames().len() > 0,
            old(self).live(h),
        ensures
            final(self).wf(),
            final(self).spec_next_id() == old(self).spec_next_id(),
            final(self).spec_epoch() == old(self).spec_epoch(),
            final(self).spec_safe() == old(self).spec_safe(),
            final(self).spec_heap() == old(self).spec_heap(),
            old(self).keeps_closed(final(self)),
            forall|h: Handle| old(self).live(h) ==> #[trigger] final(self).live(h),
            final(self).spec_frames().len() == old(self).spec_frames().len(),
            final(self).top().id == old(self).top().id,
            r is Ok ==> final(self).live(r->Ok_0),
            old(self).top().used == old(self).top().capacity ==> r == Err::<Handle, BridgeError>(
                BridgeError::CapacityExceeded,
            ) && *final(self) == *old(self),
            old(self).top().used < old(self).top().capacity ==> r == Ok::<Handle, BridgeError>(
                Handle { obj: h.obj, owner: Owner::Frame(old(self).top().id) },
            ) && final(self).spec_frames() == old(self).spec_frames().update(
                old(self).spec_frames().len() - 1,
                Frame { used: (old(self).top().used + 1) as usize, ..old(self).top() },
            ),
    {
        let last = self.frames.len() - 1;
        let id = self.frames[last].id;
        let capacity = self.frames[last].capacity;
        let used = self.frames[last].used;
        if used == capacity {
            return Err(BridgeError::CapacityExceeded);
        }
        self.frames.set(last, Frame { id, capacity, used: used + 1 });
        proof {
            assert forall|h: Handle| old(self).live(h) implies #[trigger] self.live(h) by {
                if let Owner::Frame(x) = h.owner {
                    let i = choose|i: int|
                        0 <= i < old(self).spec_frames().len() && #[trigger] old(self).spec_frames()[i].id
                            == x;
                    assert(self.spec_frames()[i].id == x);
                }
            }
            assert forall|x: u64| old(self).frame_closed(x) implies self.frame_closed(x) by {
                if self.frame_open(x) {
                    let i = choose|i: int|
                        0 <= i < self.spec_frames().len() && #[trigger] self.spec_frames()[i].id
                            == x;
                    assert(old(self).spec_frames()[i].id == x);
                }
            }
        }
        proof {
            assert(self.spec_frames()[last as int].id == id);
        }
        Ok(Handle { obj: h.obj, owner: Owner::Frame(id) })
    }

    /// Enters a GC-safe region: the collector may run, so every unrooted
    /// handle dies, and no handle may be dereferenced until the region ends.
    pub fn enter_safe(&mut self)
        requires
            old(self).wf(),
            !old(self).spec_safe(),
            old(self).spec_epoch() < u64::MAX,
        ensures
            final(self).wf(),
            final(self).spec_safe(),
            final(self).spec_epoch() == old(self).spec_epoch() + 1,
            final(self).spec_frames() == old(self).spec_frames(),
            final(self).spec_heap() == old(self).spec_heap(),
            final(self).spec_next_id() == old(self).spec_next_id(),
    {
        self.safe = true;
        self.epoch = self.epoch + 1;
    }

    /// Leaves a GC-safe region and returns to GC-unsafe mode.
    pub fn leave_safe(&mut self)
        requires
            old(self).wf(),
            old(self).spec_safe(),
        ensures
            final(self).wf(),
            !final(self).spec_safe(),
            final(self).spec_epoch() == old(self).spec_epoch(),
            final(self).spec_frames() == old(self).spec_frames(),
            final(self).spec_heap() == old(self).spec_heap(),
            final(self).spec_next_id() == old(self).spec_next_id(),
    {
        self.safe = false;
    }

    /// Tells whether the handle is live.
    pub fn is_live(&self, h: &Handle) -> (r: bool)
        ensures
            r == self.live(*h),
    {
        if h.obj >= self.heap.len() {
            return false;
        }
        match h.owner {
            Owner::Frame(id) => {
                let mut i: usize = 0;
                while i < self.frames.len()
                    invariant
                        i <= self.frames@.len(),
                        h.obj < self.heap@.len(),
                        h.owner == Owner::Frame(id),
                        forall|k: int| 0 <= k < i ==> #[trigger] self.frames@[k].id != id,
                    decreases self.frames@.len() - i,
                {
                    if self.frames[i].id == id {
                        assert(self.spec_frames()[i as int].id == id);
                        return true;
                    }
                    i = i + 1;
                }
                false
            },
            Owner::Unrooted(e) => e == self.epoch,
            Owner::Traced => true,
        }
    }

    /// The record behind an accessible handle.
    pub fn get(&self, h: &Handle) -> (r: &Record)
        requires
            self.accessible(*h),
        ensures
            *r == self.spec_heap()[h.obj as int],
            self.wf() ==> self.fits(*r),
    {
        &self.heap[h.obj]
    }

    /// Allocates a record on the host heap without rooting it in any frame,
    /// as a value returned straight to the host; the handle is unrooted and
    /// of the current GC epoch.
    pub fn alloc_unrooted(&mut self, rec: Record) -> (h: Handle)
        requires
            old(self).wf(),
            !old(self).spec_safe(),
            old(self).fits(rec),
        ensures
            final(self).wf(),
            h.obj == old(self).spec_heap().len(),
            h.owner == Owner::Unrooted(old(self).spec_epoch()),
            final(self).spec_heap() == old(self).spec_heap().push(rec),
            forall|h: Handle| old(self).live(h) ==> #[trigger] final(self).live(h),
            final(self).spec_frames() == old(self).spec_frames(),
            final(self).spec_next_id() == old(self).spec_next_id(),
            final(self).spec_epoch() == old(self).spec_epoch(),
            final(self).spec_safe() == old(self).spec_safe(),
    {
        let obj = self.heap.len();
        self.heap.push(rec);
        proof {
            assert forall|i: int| 0 <= i < self.heap@.len() implies self.fits(
                #[trigger] self.heap@[i],
            ) by {
                if i < old(self).heap@.len() {
                    assert(old(self).fits(old(self).heap@[i]));
                }
            }
        }
        proof {
            assert forall|h: Handle| old(self).live(h) implies #[trigger] self.live(h) by {
                if let Owner::Frame(x) = h.owner {
                    let i = choose|i: int|
                        0 <= i < old(self).spec_frames().len() && #[trigger] old(self).spec_frames()[i].id
                            == x;
                    assert(self.spec_frames()[i].id == x);
                }
            }
        }
        Handle { obj, owner: Owner::Unrooted(self.epoch) }
    }

    /// Unboxes a host string. Fails with `TypeMismatch` when the handle
    /// holds any other record.
    pub fn unbox_text(&self, h: &Handle) -> (r: Result<String, BridgeError>)
        requires
            self.accessible(*h),
        ensures
            match self.spec_heap()[h.obj as int] {
                Record::Text(t) => r is Ok && r->Ok_0@ == t@,
                _ => r == Err::<String, BridgeError>(BridgeError::TypeMismatch),
            },
    {
        match &self.heap[h.obj] {
            Record::Text(t) => Ok(t.clone()),
            _ => Err(BridgeError::TypeMismatch),
        }
    }
}

/// Along any run of operations in which each step keeps closed frames
/// closed, a handle rooted in a frame that was closed at the start stays
/// dead, so no operation that needs a live handle can be called with it.
pub proof fn lemma_closed_frame_handle_stays_dead(a: Session, b: Session, h: Handle)
    requires
        a.keeps_closed(&b),
        h.owner is Frame,
        a.frame_closed(h.owner->Frame_0),
    ensures
        b.frame_closed(h.owner->Frame_0),
        !b.live(h),
        !b.accessible(h),
{
}

/// Keeping closed frames closed composes over a sequence of operations.
pub proof fn lemma_keeps_closed_trans(a: Session, b: Session, c: Session)
    requires
        a.keeps_closed(&b),
        b.keeps_closed(&c),
    ensures
        a.keeps_closed(&c),
{
}

/// A handle rooted in a frame is live exactly while that frame is open.
pub proof fn lemma_frame_handle_live(s: Session, h: Handle)
    requires
        h.obj < s.spec_heap().len(),
        h.owner is Frame,
    ensures
        s.live(h) <==> s.frame_open(h.owner->Frame_0),
{
}

/// Inside a GC-safe region no handle can be dereferenced, and an unrooted
/// handle obtained before the region began is dead for good: only handles
/// rooted in a frame or traced by a foreign record survive the region.
pub proof fn lemma_safe_region_blocks_access(s: Session, h: Handle)
    ensures
        s.spec_safe() ==> !s.accessible(h),
        (h.owner is Unrooted && h.owner->Unrooted_0 < s.spec_epoch()) ==> !s.live(h),
{
}

} // verus!
