//! The 3D context of each open of the card.
//!
//! Each open has a context of its own, so that what one client submits never
//! runs in, or is answered from, the context of another.
use vstd::prelude::*;

verus! {

/// How many opens can have a context at once.
pub const MAX_GPU_CTXS: usize = 16;

/// The 3D context bound to an open.
#[derive(Debug, Clone, Copy, PartialEq, Eq, Structural)]
pub struct GpuCtx {
    /// The open; 0 marks a free slot.
    pub open_id: u32,
    /// The host's id of the context.
    pub ctx_id: u32,
    /// The capability set the context was made with.
    pub capset: u32,
    /// How many rings it has, at least 1.
    pub num_rings: u32,
    /// Fence of the open's last submission, 0 if it never submitted.
    pub last_fence: u64,
}

impl GpuCtx {
    /// A free slot.
    pub open spec fn free() -> Self {
        GpuCtx { open_id: 0, ctx_id: 0, capset: 0, num_rings: 1, last_fence: 0 }
    }

    /// A free slot.
    pub fn empty() -> (c: Self)
        ensures
            c == GpuCtx::free(),
    {
        GpuCtx { open_id: 0, ctx_id: 0, capset: 0, num_rings: 1, last_fence: 0 }
    }
}

/// Slot `i` of `slots` belongs to `open_id`.
pub open spec fn slot_is(slots: Seq<GpuCtx>, i: int, open_id: u32) -> bool {
    0 <= i < slots.len() && slots[i].open_id == open_id
}

/// The context of `open_id`; an open without identity never has one.
pub open spec fn entry(slots: Seq<GpuCtx>, open_id: u32) -> Option<GpuCtx> {
    if open_id != 0 && exists|i: int| #[trigger] slot_is(slots, i, open_id) {
        Some(slots[choose|i: int| #[trigger] slot_is(slots, i, open_id)])
    } else {
        None
    }
}

/// Some slot is free.
pub open spec fn has_room(slots: Seq<GpuCtx>) -> bool {
    exists|i: int| #[trigger] slot_is(slots, i, 0)
}

/// Why a context could not be bound.
#[derive(Debug, Clone, Copy, PartialEq, Eq, Structural)]
pub enum BindError {
    /// No slot is left, or the open has no identity.
    NoSlot,
    /// The open has a context already; this is its id.
    Taken(u32),
}

/// The contexts of all opens.
pub struct GpuContexts {
    slots: [GpuCtx; MAX_GPU_CTXS],
}

impl View for GpuContexts {
    type V = Seq<GpuCtx>;

    closed spec fn view(&self) -> Seq<GpuCtx> {
        self.slots@
    }
}

impl GpuContexts {
    /// No open has two contexts, and every context has a ring.
    pub open spec fn wf(&self) -> bool {
        &&& self@.len() == MAX_GPU_CTXS
        &&& forall|i: int, j: int, open_id: u32|
            #![trigger slot_is(self@, i, open_id), slot_is(self@, j, open_id)]
            open_id != 0 && slot_is(self@, i, open_id) && slot_is(self@, j, open_id) ==> i == j
        &&& forall|i: int|
            0 <= i < self@.len() ==> 1 <= (#[trigger] self@[i]).num_rings
    }

    /// No open has a context.
    pub fn new() -> (t: Self)
        ensures
            t.wf(),
            forall|open_id: u32| #[trigger] entry(t@, open_id) is None,
            has_room(t@),
    {
        let t = GpuContexts {
            slots: [GpuCtx { open_id: 0, ctx_id: 0, capset: 0, num_rings: 1, last_fence: 0 }; 16],
        };
        assert(slot_is(t@, 0, 0));
        t
    }

    /// The lowest slot of `open_id`.
    fn find(&self, open_id: u32) -> (r: Option<usize>)
        requires
            self.wf(),
        ensures
            match r {
                Some(i) => slot_is(self@, i as int, open_id),
                None => !exists|i: int| #[trigger] slot_is(self@, i, open_id),
            },
    {
        let mut i: usize = 0;
        while i < MAX_GPU_CTXS
            invariant
                i <= MAX_GPU_CTXS,
                self@.len() == MAX_GPU_CTXS,
                forall|k: int| 0 <= k < i ==> !(#[trigger] slot_is(self@, k, open_id)),
            decreases MAX_GPU_CTXS - i,
        {
            if self.slots[i].open_id == open_id {
                assert(slot_is(self@, i as int, open_id));
                return Some(i);
            }
            i += 1;
        }
        None
    }

    /// The whole binding of `open_id`.
    pub fn ctx_lookup_entry(&self, open_id: u32) -> (r: Option<GpuCtx>)
        requires
            self.wf(),
        ensures
            r == entry(self@, open_id),
    {
        if open_id == 0 {
            return None;
        }
        match self.find(open_id) {
            Some(i) => Some(self.slots[i]),
            None => None,
        }
    }

    /// The host's id of the context of `open_id`, 0 if it has none.
    pub fn ctx_lookup(&self, open_id: u32) -> (r: u32)
        requires
            self.wf(),
        ensures
            r == (match entry(self@, open_id) {
                Some(c) => c.ctx_id,
                None => 0,
            }),
    {
        match self.ctx_lookup_entry(open_id) {
            Some(c) => c.ctx_id,
            None => 0,
        }
    }

    /// Binds a new context to `open_id`.
    pub fn ctx_bind(&mut self, open_id: u32, ctx_id: u32, capset: u32, num_rings: u32) -> (r:
        Result<(), BindError>)
        requires
            old(self).wf(),
        ensures
            final(self).wf(),
            r == (match entry(old(self)@, open_id) {
                Some(c) => Err(BindError::Taken(c.ctx_id)),
                None => if open_id != 0 && has_room(old(self)@) {
                    Ok(())
                } else {
                    Err(BindError::NoSlot)
                },
            }),
            r is Err ==> final(self)@ == old(self)@,
            r is Ok ==> entry(final(self)@, open_id) == Some(
                GpuCtx {
                    open_id,
                    ctx_id,
                    capset,
                    num_rings: if num_rings == 0 {
                        1
                    } else {
                        num_rings
                    },
                    last_fence: 0,
                },
            ),
            forall|other: u32|
                other != open_id ==> #[trigger] entry(final(self)@, other) == entry(
                    old(self)@,
                    other,
                ),
    {
        if open_id == 0 {
            return Err(BindError::NoSlot);
        }
        match self.find(open_id) {
            Some(i) => Err(BindError::Taken(self.slots[i].ctx_id)),
            None => match self.find(0) {
                Some(i) => {
                    let num_rings: u32 = if num_rings == 0 {
                        1
                    } else {
                        num_rings
                    };
                    self.set(i, GpuCtx { open_id, ctx_id, capset, num_rings, last_fence: 0 });
                    Ok(())
                },
                None => Err(BindError::NoSlot),
            },
        }
    }

    /// Fills slot `i`.
    fn set(&mut self, i: usize, c: GpuCtx)
        requires
            old(self).wf(),
            i < MAX_GPU_CTXS,
            1 <= c.num_rings,
            c.open_id != 0 ==> forall|k: int| #[trigger]
                slot_is(old(self)@, k, c.open_id) ==> k == i,
        ensures
            final(self).wf(),
            final(self)@ == old(self)@.update(i as int, c),
            c.open_id != 0 ==> entry(final(self)@, c.open_id) == Some(c),
            forall|other: u32|
                other != c.open_id && other != old(self)@[i as int].open_id ==> #[trigger] entry(
                    final(self)@,
                    other,
                ) == entry(old(self)@, other),
    {
        let ghost before = self@;
        self.slots[i] = c;
        proof {
            assert(self@ =~= before.update(i as int, c));
            assert forall|k: int, open_id: u32|
                k != i implies #[trigger] slot_is(self@, k, open_id) == slot_is(before, k, open_id) by {}
            assert(slot_is(self@, i as int, c.open_id));
            assert forall|other: u32|
                other != c.open_id && other != before[i as int].open_id implies #[trigger] entry(
                self@,
                other,
            ) == entry(before, other) by {
                if other != 0 {
                    if exists|k: int| #[trigger] slot_is(before, k, other) {
                        let k = choose|k: int| #[trigger] slot_is(before, k, other);
                        assert(slot_is(self@, k, other));
                    }
                    if exists|k: int| #[trigger] slot_is(self@, k, other) {
                        let k = choose|k: int| #[trigger] slot_is(self@, k, other);
                        assert(slot_is(before, k, other));
                    }
                }
            }
        }
    }

    /// Records `fence` as the last submission of `open_id`, if it has a context.
    pub fn ctx_record_fence(&mut self, open_id: u32, fence: u64)
        requires
            old(self).wf(),
        ensures
            final(self).wf(),
            entry(final(self)@, open_id) == (match entry(old(self)@, open_id) {
                Some(c) => Some(GpuCtx { last_fence: fence, ..c }),
                None => None,
            }),
            forall|other: u32|
                other != open_id ==> #[trigger] entry(final(self)@, other) == entry(
                    old(self)@,
                    other,
                ),
    {
        if open_id == 0 {
            return;
        }
        match self.find(open_id) {
            Some(i) => {
                let mut c = self.slots[i];
                c.last_fence = fence;
                self.set(i, c);
            },
            None => {},
        }
    }

    /// Takes the context of `open_id` away and gives its id, 0 if it had none.
    pub fn ctx_release(&mut self, open_id: u32) -> (ctx: u32)
        requires
            old(self).wf(),
        ensures
            final(self).wf(),
            ctx == (match entry(old(self)@, open_id) {
                Some(c) => c.ctx_id,
                None => 0,
            }),
            entry(final(self)@, open_id) is None,
            entry(old(self)@, open_id) is Some ==> has_room(final(self)@),
            forall|other: u32|
                other != open_id ==> #[trigger] entry(final(self)@, other) == entry(
                    old(self)@,
                    other,
                ),
    {
        if open_id == 0 {
            return 0;
        }
        match self.find(open_id) {
            Some(i) => {
                let id = self.slots[i].ctx_id;
                let ghost before = self@;
                self.set(i, GpuCtx::empty());
                proof {
                    assert(slot_is(self@, i as int, 0));
                    assert forall|k: int| !(#[trigger] slot_is(self@, k, open_id)) by {
                        if slot_is(self@, k, open_id) {
                            assert(slot_is(before, k, open_id));
                        }
                    }
                }
                id
            },
            None => 0,
        }
    }
}

} // verus!
