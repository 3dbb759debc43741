//! Physical frame allocator: hands out frame numbers from a linear range and
//! reuses released ones last-in, first-out.
use vstd::prelude::*;

use crate::config::PAGE_SIZE;

verus! {

/// Physical page number.
#[derive(Clone, Copy, PartialEq, Eq, Structural, Debug)]
pub struct PhysPageNum(pub usize);

/// Owning handle over exactly one physical frame.
#[derive(Debug)]
pub struct FrameTracker {
    pub ppn: PhysPageNum,
}

impl FrameTracker {
    /// Wraps frame `ppn`; clearing its contents is done by whoever can reach
    /// physical memory, before the frame is handed out.
    pub fn new(ppn: PhysPageNum) -> (r: Self)
        ensures
            r.ppn == ppn,
    {
        FrameTracker { ppn }
    }
}

/// Abstract state of the allocator.
pub struct FrameAllocState {
    /// Next never-allocated frame number.
    pub current: nat,
    /// Exclusive upper bound of the managed range.
    pub end: nat,
    /// Released frame numbers, most recent last.
    pub recycled: Seq<nat>,
}

impl FrameAllocState {
    pub open spec fn wf(self) -> bool {
        &&& self.current <= self.end
        &&& self.recycled.no_duplicates()
        &&& forall|i: int| 0 <= i < self.recycled.len() ==> #[trigger] self.recycled[i] < self.current
    }

    /// Frames that are handed out and not yet released.
    pub open spec fn allocated(self) -> Set<nat> {
        Set::new(|n: nat| n < self.current && !self.recycled.contains(n))
    }

    /// A frame may be released only when it was handed out and not released since.
    pub open spec fn can_dealloc(self, n: nat) -> bool {
        n < self.current && !self.recycled.contains(n)
    }

    /// One allocation: the latest released frame, else the next of the linear
    /// range, else nothing.
    pub open spec fn alloc_step(self) -> (FrameAllocState, Option<nat>) {
        if self.recycled.len() > 0 {
            (
                FrameAllocState { recycled: self.recycled.drop_last(), ..self },
                Some(self.recycled.last()),
            )
        } else if self.current == self.end {
            (self, None)
        } else {
            (FrameAllocState { current: self.current + 1, ..self }, Some(self.current))
        }
    }

    /// One release of frame `n`.
    pub open spec fn dealloc_step(self, n: nat) -> FrameAllocState {
        FrameAllocState { recycled: self.recycled.push(n), ..self }
    }
}

pub open spec fn ppn_option(r: Option<PhysPageNum>) -> Option<nat> {
    match r {
        Some(p) => Some(p.0 as nat),
        None => None,
    }
}

/// Frame allocator over the range `[current, end)` with a stack of released frames.
pub struct StackFrameAllocator {
    current: usize,
    end: usize,
    recycled: Vec<usize>,
}

impl View for StackFrameAllocator {
    type V = FrameAllocState;

    closed spec fn view(&self) -> FrameAllocState {
        FrameAllocState {
            current: self.current as nat,
            end: self.end as nat,
            recycled: self.recycled@.map_values(|v: usize| v as nat),
        }
    }
}

impl StackFrameAllocator {
    pub open spec fn wf(&self) -> bool {
        self@.wf()
    }

    /// An allocator with an empty range.
    pub fn new() -> (r: Self)
        ensures
            r.wf(),
            r@.current == 0,
            r@.end == 0,
            r@.recycled.len() == 0,
    {
        let r = StackFrameAllocator { current: 0, end: 0, recycled: Vec::new() };
        assert(r@.recycled =~= Seq::<nat>::empty());
        r
    }

    /// Fixes the managed range to `[l, r)`; done once, before any allocation.
    pub fn init(&mut self, l: PhysPageNum, r: PhysPageNum)
        requires
            l.0 <= r.0,
            old(self)@.recycled.len() == 0,
        ensures
            final(self).wf(),
            final(self)@ == (FrameAllocState { current: l.0 as nat, end: r.0 as nat, recycled: Seq::empty() }),
    {
        self.current = l.0;
        self.end = r.0;
        assert(self@.recycled =~= Seq::<nat>::empty());
    }

    /// Hands out a frame number: the most recently released one if any, else the
    /// next of the linear range; `None` once both are exhausted.
    pub fn allocate(&mut self) -> (r: Option<PhysPageNum>)
        requires
            old(self).wf(),
        ensures
            final(self).wf(),
            (final(self)@, ppn_option(r)) == old(self)@.alloc_step(),
    {
        let ghost before = self@;
        match self.recycled.pop() {
            Some(ppn) => {
                assert(self@.recycled =~= before.recycled.drop_last());
                proof {
                    let s = before.recycled;
                    assert forall|i: int, j: int|
                        0 <= i < self@.recycled.len() && 0 <= j < self@.recycled.len() && i != j
                            implies self@.recycled[i] != self@.recycled[j] by {
                        assert(self@.recycled[i] == s[i] && self@.recycled[j] == s[j]);
                    }
                    assert forall|i: int| 0 <= i < self@.recycled.len()
                        implies #[trigger] self@.recycled[i] < self@.current by {
                        assert(self@.recycled[i] == s[i]);
                    }
                }
                Some(PhysPageNum(ppn))
            },
            None => {
                if self.current == self.end {
                    None
                } else {
                    self.current = self.current + 1;
                    proof {
                        assert forall|i: int| 0 <= i < self@.recycled.len()
                            implies #[trigger] self@.recycled[i] < self@.current by {
                            assert(before.recycled[i] < before.current);
                        }
                    }
                    Some(PhysPageNum(self.current - 1))
                }
            },
        }
    }

    /// Whether `ppn` is handed out and not yet released, i.e. may be released.
    pub fn can_dealloc(&self, ppn: PhysPageNum) -> (r: bool)
        ensures
            r == self@.can_dealloc(ppn.0 as nat),
    {
        if ppn.0 >= self.current {
            return false;
        }
        let mut i: usize = 0;
        while i < self.recycled.len()
            invariant
                i <= self.recycled.len(),
                forall|k: int| 0 <= k < i ==> self.recycled@[k] != ppn.0,
            decreases self.recycled.len() - i,
        {
            if self.recycled[i] == ppn.0 {
                assert(self@.recycled[i as int] == ppn.0 as nat);
                return false;
            }
            i = i + 1;
        }
        proof {
            if self@.recycled.contains(ppn.0 as nat) {
                let k = choose|k: int| 0 <= k < self@.recycled.len() && self@.recycled[k] == ppn.0 as nat;
                assert(self.recycled@[k] == ppn.0);
            }
        }
        true
    }

    /// Releases frame `ppn` for reuse. Releasing a frame that was never handed
    /// out, or releasing one twice, is a kernel bug: the precondition rules it out.
    pub fn deallocate(&mut self, ppn: PhysPageNum)
        requires
            old(self).wf(),
            old(self)@.can_dealloc(ppn.0 as nat),
        ensures
            final(self).wf(),
            final(self)@ == old(self)@.dealloc_step(ppn.0 as nat),
    {
        let ghost before = self@;
        self.recycled.push(ppn.0);
        assert(self@.recycled =~= before.recycled.push(ppn.0 as nat));
        proof {
            let s = self@.recycled;
            assert forall|i: int, j: int|
                0 <= i < s.len() && 0 <= j < s.len() && i != j implies s[i] != s[j] by {
                if i == s.len() - 1 {
                    assert(before.recycled[j] == s[j]);
                } else if j == s.len() - 1 {
                    assert(before.recycled[i] == s[i]);
                } else {
                    assert(before.recycled[i] == s[i] && before.recycled[j] == s[j]);
                }
            }
            assert forall|i: int| 0 <= i < s.len() implies #[trigger] s[i] < self@.current by {
                if i < s.len() - 1 {
                    assert(before.recycled[i] == s[i]);
                }
            }
        }
    }
}

/// Fixes the allocator's range: from the first frame at or above the end of the
/// kernel image `ekernel` to the last whole frame below `memory_end`.
pub fn init_frame_allocator(allocator: &mut StackFrameAllocator, ekernel: usize, memory_end: usize)
    requires
        old(allocator)@.recycled.len() == 0,
        ekernel <= memory_end - memory_end % PAGE_SIZE,
    ensures
        final(allocator).wf(),
        final(allocator)@ == (FrameAllocState {
            current: ((ekernel + PAGE_SIZE - 1) as int / PAGE_SIZE as int) as nat,
            end: (memory_end / PAGE_SIZE) as nat,
            recycled: Seq::empty(),
        }),
{
    let l = ekernel / PAGE_SIZE + if ekernel % PAGE_SIZE == 0 { 0 } else { 1 };
    let r = memory_end / PAGE_SIZE;
    assert(l == (ekernel + PAGE_SIZE - 1) as int / PAGE_SIZE as int) by (nonlinear_arith)
        requires l == ekernel / 4096 + if ekernel % 4096 == 0 { 0int } else { 1int }, ekernel >= 0;
    assert(l <= r) by (nonlinear_arith)
        requires l == (ekernel + 4095) / 4096, r == memory_end / 4096, ekernel <= memory_end - memory_end % 4096, memory_end >= 0;
    allocator.init(PhysPageNum(l), PhysPageNum(r));
}

/// Allocates a frame and wraps it in a tracker.
pub fn frame_alloc(allocator: &mut StackFrameAllocator) -> (r: Option<FrameTracker>)
    requires
        old(allocator).wf(),
    ensures
        final(allocator).wf(),
        (final(allocator)@, match r { Some(f) => Some(f.ppn.0 as nat), None => None }) == old(allocator)@.alloc_step(),
{
    match allocator.allocate() {
        Some(ppn) => Some(FrameTracker::new(ppn)),
        None => None,
    }
}

/// Releases the frame that `frame` owns; the tracker is consumed, so each frame
/// goes back exactly once.
pub fn frame_dealloc(allocator: &mut StackFrameAllocator, frame: FrameTracker)
    requires
        old(allocator).wf(),
        old(allocator)@.can_dealloc(frame.ppn.0 as nat),
    ensures
        final(allocator).wf(),
        final(allocator)@ == old(allocator)@.dealloc_step(frame.ppn.0 as nat),
{
    allocator.deallocate(frame.ppn);
}

/// An operation on the allocator as seen by tracker owners: allocate a new
/// tracker, or destroy the live tracker at a position of the live list.
pub enum FrameOp {
    Allocate,
    Release(nat),
}

/// The allocator state and the frames of the live trackers after one operation.
/// Destroying a tracker releases its frame; a position with no tracker does nothing.
pub open spec fn frame_op_step(s: FrameAllocState, live: Seq<nat>, op: FrameOp) -> (FrameAllocState, Seq<nat>) {
    match op {
        FrameOp::Allocate => {
            let (t, r) = s.alloc_step();
            match r {
                Some(n) => (t, live.push(n)),
                None => (t, live),
            }
        },
        FrameOp::Release(i) => {
            if i < live.len() {
                (s.dealloc_step(live[i as int]), live.remove(i as int))
            } else {
                (s, live)
            }
        },
    }
}

/// The allocator state and the frames of the live trackers after a sequence of operations.
pub open spec fn run_frame_ops(s: FrameAllocState, live: Seq<nat>, ops: Seq<FrameOp>) -> (FrameAllocState, Seq<nat>)
    decreases ops.len(),
{
    if ops.len() == 0 {
        (s, live)
    } else {
        let (t, l) = frame_op_step(s, live, ops[0]);
        run_frame_ops(t, l, ops.drop_first())
    }
}

/// Live trackers hold pairwise distinct frames, each of them allocated.
pub open spec fn trackers_sound(s: FrameAllocState, live: Seq<nat>) -> bool {
    &&& s.wf()
    &&& live.no_duplicates()
    &&& forall|k: int| 0 <= k < live.len() ==> s.allocated().contains(#[trigger] live[k])
}

proof fn lemma_frame_op_step_sound(s: FrameAllocState, live: Seq<nat>, op: FrameOp)
    requires
        trackers_sound(s, live),
    ensures
        trackers_sound(frame_op_step(s, live, op).0, frame_op_step(s, live, op).1),
        match op {
            FrameOp::Release(i) => i < live.len() ==> s.can_dealloc(live[i as int]),
            FrameOp::Allocate => true,
        },
{
    let (t, l) = frame_op_step(s, live, op);
    match op {
        FrameOp::Allocate => {
            if s.recycled.len() > 0 {
                let n = s.recycled.last();
                assert(s.recycled.contains(n));
                assert forall|i: int, j: int|
                    0 <= i < t.recycled.len() && 0 <= j < t.recycled.len() && i != j
                        implies t.recycled[i] != t.recycled[j] by {
                    assert(t.recycled[i] == s.recycled[i] && t.recycled[j] == s.recycled[j]);
                }
                assert forall|i: int| 0 <= i < t.recycled.len() implies #[trigger] t.recycled[i] < t.current by {
                    assert(t.recycled[i] == s.recycled[i]);
                }
                assert forall|k: int| 0 <= k < l.len() implies t.allocated().contains(#[trigger] l[k]) by {
                    if k < live.len() {
                        assert(s.allocated().contains(live[k]));
                        assert(l[k] == live[k]);
                        if t.recycled.contains(l[k]) {
                            let j = choose|j: int| 0 <= j < t.recycled.len() && t.recycled[j] == l[k];
                            assert(s.recycled[j] == l[k]);
                        }
                    } else {
                        assert(l[k] == n);
                        if t.recycled.contains(n) {
                            let j = choose|j: int| 0 <= j < t.recycled.len() && t.recycled[j] == n;
                            assert(s.recycled[j] == n);
                        }
                    }
                }
                assert forall|i: int, j: int| 0 <= i < l.len() && 0 <= j < l.len() && i != j implies l[i] != l[j] by {
                    if i < live.len() && j < live.len() {
                    } else if i < live.len() {
                        assert(s.allocated().contains(live[i]));
                    } else {
                        assert(s.allocated().contains(live[j]));
                    }
                }
            } else if s.current == s.end {
            } else {
                let n = s.current;
                assert forall|i: int| 0 <= i < t.recycled.len() implies #[trigger] t.recycled[i] < t.current by {
                    assert(s.recycled[i] < s.current);
                }
                assert forall|k: int| 0 <= k < l.len() implies t.allocated().contains(#[trigger] l[k]) by {
                    if k < live.len() {
                        assert(s.allocated().contains(live[k]));
                    }
                }
                assert forall|i: int, j: int| 0 <= i < l.len() && 0 <= j < l.len() && i != j implies l[i] != l[j] by {
                    if i < live.len() && j < live.len() {
                    } else if i < live.len() {
                        assert(s.allocated().contains(live[i]));
                    } else {
                        assert(s.allocated().contains(live[j]));
                    }
                }
            }
        },
        FrameOp::Release(i) => {
            if i < live.len() {
                let n = live[i as int];
                assert(s.allocated().contains(n));
                let r = t.recycled;
                assert forall|a: int, b: int| 0 <= a < r.len() && 0 <= b < r.len() && a != b implies r[a] != r[b] by {
                    if a == r.len() - 1 {
                        assert(s.recycled[b] == r[b]);
                    } else if b == r.len() - 1 {
                        assert(s.recycled[a] == r[a]);
                    } else {
                        assert(s.recycled[a] == r[a] && s.recycled[b] == r[b]);
                    }
                }
                assert forall|a: int| 0 <= a < r.len() implies #[trigger] r[a] < t.current by {
                    if a < r.len() - 1 {
                        assert(s.recycled[a] == r[a]);
                    }
                }
                assert forall|k: int| 0 <= k < l.len() implies t.allocated().contains(#[trigger] l[k]) by {
                    let k0 = if k < i { k } else { k + 1 };
                    assert(l[k] == live[k0]);
                    assert(s.allocated().contains(live[k0]));
                    assert(live[k0] != n);
                    if r.contains(l[k]) {
                        let j = choose|j: int| 0 <= j < r.len() && r[j] == l[k];
                        if j < r.len() - 1 {
                            assert(s.recycled[j] == l[k]);
                        }
                    }
                }
                assert forall|a: int, b: int| 0 <= a < l.len() && 0 <= b < l.len() && a != b implies l[a] != l[b] by {
                    let a0 = if a < i { a } else { a + 1 };
                    let b0 = if b < i { b } else { b + 1 };
                    assert(l[a] == live[a0] && l[b] == live[b0]);
                }
            }
        },
    }
}

/// Frame allocator soundness: after any sequence of allocations and tracker
/// destructions, starting from a well-formed allocator with no live tracker,
/// no two live trackers hold the same frame number and every live tracker's
/// frame is allocated (so, by `lemma_frame_ops_sound`, destroying any of them
/// releases a frame that may be released).
pub proof fn lemma_frame_allocator_sound(s: FrameAllocState, ops: Seq<FrameOp>)
    requires
        s.wf(),
    ensures
        trackers_sound(run_frame_ops(s, Seq::empty(), ops).0, run_frame_ops(s, Seq::empty(), ops).1),
        run_frame_ops(s, Seq::empty(), ops).1.no_duplicates(),
{
    lemma_frame_ops_sound(s, Seq::empty(), ops);
}

/// Every sequence of operations keeps the trackers sound, and each destruction
/// along the way releases a frame that may be released.
pub proof fn lemma_frame_ops_sound(s: FrameAllocState, live: Seq<nat>, ops: Seq<FrameOp>)
    requires
        trackers_sound(s, live),
    ensures
        trackers_sound(run_frame_ops(s, live, ops).0, run_frame_ops(s, live, ops).1),
        ops.len() > 0 ==> match ops[0] {
            FrameOp::Release(i) => i < live.len() ==> s.can_dealloc(live[i as int]),
            FrameOp::Allocate => true,
        },
    decreases ops.len(),
{
    if ops.len() > 0 {
        lemma_frame_op_step_sound(s, live, ops[0]);
        let (t, l) = frame_op_step(s, live, ops[0]);
        lemma_frame_ops_sound(t, l, ops.drop_first());
    }
}

/// Releasing a frame number at or above `current` (never handed out), or one
/// already released, is refused: `deallocate` requires the opposite, so such a
/// release is a kernel bug that cannot pass verification.
pub proof fn lemma_bad_release_refused(s: FrameAllocState, n: nat)
    requires
        n >= s.current || s.recycled.contains(n),
    ensures
        !s.can_dealloc(n),
{
}

/// Last-in, first-out reuse: allocating right after releasing frame `x` hands
/// out `x` again and restores the state from before the release.
pub proof fn lemma_lifo_reuse(s: FrameAllocState, x: nat)
    requires
        s.wf(),
        s.can_dealloc(x),
    ensures
        s.dealloc_step(x).alloc_step() == (s, Some(x)),
{
    assert(s.dealloc_step(x).recycled.drop_last() =~= s.recycled);
}

/// Exhaustion: with the linear range used up and nothing released, allocation
/// signals "none" and changes nothing.
pub proof fn lemma_exhaustion(s: FrameAllocState)
    requires
        s.current == s.end,
        s.recycled.len() == 0,
    ensures
        s.alloc_step() == (s, None::<nat>),
{
}

} // verus!
