//! Buffer objects: what a gem handle names, who may reach it, and when the
//! memory behind it goes away.
//!
//! A buffer object lives until its last reference goes. Each gem handle that
//! names it holds one reference, and so does each exported dmabuf. Dropping the
//! last one takes the record out of the registry and hands back a
//! [`BoTeardown`], which says what the device and the page allocator are to be
//! told; no other path produces one.
use crate::hostvis::{is_free, span_len, HostvisWindow, MAX_HOSTVIS_SPANS};
use crate::registry::{count, entries_u32, lists_u32, lookup, store, take};
use std::collections::BTreeMap;
use crate::DriverError;
use vstd::arithmetic::power2::pow2;
use vstd::prelude::*;

verus! {

/// Blob memory backed by guest pages.
pub const VIRTIO_GPU_BLOB_MEM_GUEST: u32 = 1;

/// Blob memory that lives on the host; the guest owns no pages of it.
pub const VIRTIO_GPU_BLOB_MEM_HOST3D: u32 = 2;

/// Blob memory on the host with guest pages behind it.
pub const VIRTIO_GPU_BLOB_MEM_HOST3D_GUEST: u32 = 3;

/// The part of a host mapping's `map_info` that holds the cache type.
pub const VIRTIO_GPU_MAP_CACHE_MASK: u32 = 0x0f;

/// Cache type: ordinary write-back memory.
pub const VIRTIO_GPU_MAP_CACHE_CACHED: u32 = 1;

/// The first gem handle given to a blob; dumb buffers count up from 1.
pub const FIRST_BLOB_HANDLE: u32 = 0x4000;

/// The largest blob that can be created: 64 MiB.
pub const MAX_BLOB_BYTES: u64 = 67108864;

/// Bytes in a block of pages of allocation order `order`.
pub open spec fn block_bytes(order: int) -> int {
    pow2(order as nat) as int * 4096
}

/// A dumb buffer: the pages of a scanout target.
#[derive(Debug, Clone, Copy, PartialEq, Eq, Structural)]
pub struct DumbBuf {
    /// Physical base of the pages.
    pub phys: usize,
    /// Allocation order of the pages.
    pub order: usize,
    /// Fence of the last submission that named this buffer, 0 if none did.
    pub last_fence: u64,
    /// Lifetime identity, shared with blob objects.
    pub obj: u32,
    /// Live references: the gem handle while `handle_live`, and one per export.
    pub refs: u32,
    /// False once the gem handle is retired; the record then only keeps
    /// exports valid.
    pub handle_live: bool,
}

/// A blob buffer object.
#[derive(Debug, Clone, Copy, PartialEq, Eq, Structural)]
pub struct BlobObj {
    /// Physical base of the guest pages, 0 if there are none.
    pub phys: usize,
    /// Allocation order of the guest pages.
    pub order: usize,
    /// The id the host knows the resource by.
    pub res_handle: u32,
    /// Bytes asked for at creation.
    pub size: u64,
    /// Fence of the last submission that named this buffer, 0 if none did.
    pub last_fence: u64,
    /// The kind of blob memory.
    pub blob_mem: u32,
    /// Where in the host-visible window the resource is mapped.
    pub win_off: u64,
    /// The guest-physical address of that mapping, 0 while there is none.
    pub map_phys: u64,
    /// What the host said of the mapping.
    pub map_info: u32,
    /// Live references: one per handle, and one per export.
    pub refs: u32,
}

/// A gem handle that names a [`BlobObj`]. The handle is one reference.
#[derive(Debug, Clone, Copy, PartialEq, Eq, Structural)]
pub struct BlobHandle {
    /// The object.
    pub obj: u32,
    /// The open that may use the handle, 0 if any may.
    pub owner: u32,
    /// The 3D context this handle attached the resource to, 0 if none.
    pub ctx: u32,
}

/// A handle joined to its object: what a user of the handle needs to know.
#[derive(Debug, Clone, Copy, PartialEq, Eq, Structural)]
pub struct BlobView {
    pub obj: u32,
    pub phys: usize,
    pub res_handle: u32,
    pub size: u64,
    pub last_fence: u64,
    pub blob_mem: u32,
    pub map_phys: u64,
}

impl BlobView {
    /// The view of object `obj`, which is `o`.
    pub open spec fn of(obj: u32, o: BlobObj) -> Self {
        BlobView {
            obj,
            phys: o.phys,
            res_handle: o.res_handle,
            size: o.size,
            last_fence: o.last_fence,
            blob_mem: o.blob_mem,
            map_phys: o.map_phys,
        }
    }

    /// Joins object id `obj` to its record `o`.
    pub fn join(obj: u32, o: BlobObj) -> (v: Self)
        ensures
            v == BlobView::of(obj, o),
    {
        BlobView {
            obj,
            phys: o.phys,
            res_handle: o.res_handle,
            size: o.size,
            last_fence: o.last_fence,
            blob_mem: o.blob_mem,
            map_phys: o.map_phys,
        }
    }
}

/// What backs a gem handle that is exported as a dmabuf, and the reference that
/// the export took.
#[derive(Debug, Clone, Copy, PartialEq, Eq, Structural)]
pub struct PrimeExport {
    /// Physical base of the backing pages, 0 if the guest owns none.
    pub phys: usize,
    /// Allocation order of those pages.
    pub order: usize,
    /// Bytes the exported file reports.
    pub len: usize,
    /// The object the reference is on.
    pub obj: u32,
}

/// What to tell the device and the page allocator when a reference goes: in
/// this order unmap, detach, unreference, give back the window range, free the
/// pages.
#[derive(Debug, Clone, Copy, PartialEq, Eq)]
pub struct BoTeardown {
    /// The host resource this is about (0 for a dumb buffer).
    pub res_handle: u32,
    /// The host mapping of the resource is to be undone.
    pub unmap: bool,
    /// The context to detach the resource from, 0 for none.
    pub detach_ctx: u32,
    /// The host resource is to be released.
    pub unref: bool,
    /// The window reservation to give back.
    pub window: Option<u64>,
    /// The pages to free: base and order.
    pub pages: Option<(usize, usize)>,
}

/// The registry as a value.
#[verifier::ext_equal]
pub struct BoState {
    pub dumb: Map<u32, DumbBuf>,
    pub objs: Map<u32, BlobObj>,
    pub handles: Map<u32, BlobHandle>,
    pub window: Map<u64, u64>,
    pub next_obj: u32,
    pub next_blob_handle: u32,
    pub next_dumb_handle: u32,
}

/// The handles that name object `obj`.
pub open spec fn naming(handles: Map<u32, BlobHandle>, obj: u32) -> Set<u32> {
    handles.dom().filter(|h: u32| handles[h].obj == obj)
}

/// A caller may reach a buffer if it owns it, if nobody owns it, or if the
/// caller has no identity.
pub open spec fn may_reach(caller: u32, owner: u32) -> bool {
    caller == 0 || owner == 0 || caller == owner
}

/// One less, but never below zero.
pub open spec fn dec(refs: u32) -> u32 {
    if refs == 0 {
        0
    } else {
        (refs - 1) as u32
    }
}

/// One more, but never past the top.
pub open spec fn inc(refs: u32) -> u32 {
    if refs == u32::MAX {
        refs
    } else {
        (refs + 1) as u32
    }
}

/// The next value of a counter that wraps.
pub open spec fn wrap_next(n: u32) -> u32 {
    if n == u32::MAX {
        0
    } else {
        (n + 1) as u32
    }
}

impl BoState {
    /// Every handle names a live object; every object has at least the
    /// references its handles hold; identities are unique and never handed out
    /// twice; every mapped object holds its own reservation in the window.
    pub open spec fn wf(self) -> bool {
        &&& self.handles.dom().finite()
        &&& forall|h: u32| #[trigger]
            self.handles.contains_key(h) ==> FIRST_BLOB_HANDLE <= h < self.next_blob_handle
                && self.objs.contains_key(self.handles[h].obj)
        &&& FIRST_BLOB_HANDLE <= self.next_blob_handle
        &&& forall|o: u32| #[trigger]
            self.objs.contains_key(o) ==> {
                &&& 0 < self.objs[o].refs
                &&& naming(self.handles, o).len() <= self.objs[o].refs
                &&& 0 < o < self.next_obj
                &&& 0 < self.objs[o].size <= MAX_BLOB_BYTES
                &&& self.objs[o].map_phys != 0 ==> {
                    &&& self.window.contains_key(self.objs[o].win_off)
                    &&& self.window[self.objs[o].win_off] == span_len(self.objs[o].size as int)
                }
            }
        &&& forall|a: u32, b: u32|
            #![trigger self.objs.contains_key(a), self.objs.contains_key(b)]
            self.objs.contains_key(a) && self.objs.contains_key(b) && a != b
                && self.objs[a].map_phys != 0 && self.objs[b].map_phys != 0
                ==> self.objs[a].win_off != self.objs[b].win_off
        &&& forall|d: u32| #[trigger]
            self.dumb.contains_key(d) ==> {
                &&& d < self.next_dumb_handle
                &&& 0 < self.dumb[d].refs
                &&& self.dumb[d].order < usize::BITS
                &&& block_bytes(self.dumb[d].order as int) <= usize::MAX
                &&& 0 < self.dumb[d].obj < self.next_obj
                &&& !self.objs.contains_key(self.dumb[d].obj)
            }
        &&& forall|c: u32, d: u32|
            #![trigger self.dumb.contains_key(c), self.dumb.contains_key(d)]
            self.dumb.contains_key(c) && self.dumb.contains_key(d) && c != d ==> self.dumb[c].obj
                != self.dumb[d].obj
    }

    /// References on blob object `o` that no handle accounts for: its exports.
    pub open spec fn exports(self, o: u32) -> int {
        self.objs[o].refs - naming(self.handles, o).len()
    }

    /// What `handle` resolves to for `open_id` among the blobs.
    pub open spec fn blob_of(self, handle: u32, open_id: u32) -> Option<BlobView> {
        if self.handles.contains_key(handle) && may_reach(open_id, self.handles[handle].owner)
            && self.objs.contains_key(self.handles[handle].obj) {
            Some(BlobView::of(self.handles[handle].obj, self.objs[self.handles[handle].obj]))
        } else {
            None
        }
    }

    /// What `handle` resolves to among the dumb buffers.
    pub open spec fn dumb_of(self, handle: u32) -> Option<DumbBuf> {
        if self.dumb.contains_key(handle) && self.dumb[handle].handle_live {
            Some(self.dumb[handle])
        } else {
            None
        }
    }

    /// The fence of the buffer that `handle` names, of either kind.
    pub open spec fn fence_of(self, handle: u32, open_id: u32) -> Option<u64> {
        match self.blob_of(handle, open_id) {
            Some(b) => Some(b.last_fence),
            None => match self.dumb_of(handle) {
                Some(b) => Some(b.last_fence),
                None => None,
            },
        }
    }

    /// `handle` names a buffer that `open_id` may reach.
    pub open spec fn names_bo(self, handle: u32, open_id: u32) -> bool {
        self.blob_of(handle, open_id) is Some || self.dumb_of(handle) is Some
    }

    /// One reference less on blob object `obj`.
    pub open spec fn unref_blob(self, obj: u32) -> BoState {
        if !self.objs.contains_key(obj) {
            self
        } else if dec(self.objs[obj].refs) == 0 {
            BoState { objs: self.objs.remove(obj), ..self }
        } else {
            let o = self.objs[obj];
            BoState { objs: self.objs.insert(obj, BlobObj { refs: dec(o.refs), ..o }), ..self }
        }
    }

    /// What dropping a reference on blob object `obj`, and its context binding
    /// `detach_ctx`, asks of the device and the allocator.
    pub open spec fn blob_teardown(self, obj: u32, detach_ctx: u32) -> BoTeardown {
        let o = self.objs[obj];
        let dead = dec(o.refs) == 0;
        BoTeardown {
            res_handle: o.res_handle,
            unmap: dead && o.map_phys != 0,
            detach_ctx,
            unref: dead,
            window: if dead && o.map_phys != 0 {
                Some(o.win_off)
            } else {
                None
            },
            pages: if dead && o.phys != 0 {
                Some((o.phys, o.order))
            } else {
                None
            },
        }
    }

    /// One reference less on the dumb buffer under key `d`, whose handle is
    /// retired with it if `retire`.
    pub open spec fn unref_dumb(self, d: u32, retire: bool) -> BoState {
        let b = self.dumb[d];
        if dec(b.refs) == 0 {
            BoState { dumb: self.dumb.remove(d), ..self }
        } else {
            BoState {
                dumb: self.dumb.insert(
                    d,
                    DumbBuf {
                        refs: dec(b.refs),
                        handle_live: b.handle_live && !retire,
                        ..b
                    },
                ),
                ..self
            }
        }
    }

    /// What dropping a reference on the dumb buffer under key `d` frees.
    pub open spec fn dumb_teardown(self, d: u32) -> Option<BoTeardown> {
        if dec(self.dumb[d].refs) == 0 {
            Some(
                BoTeardown {
                    res_handle: 0,
                    unmap: false,
                    detach_ctx: 0,
                    unref: false,
                    window: None,
                    pages: Some((self.dumb[d].phys, self.dumb[d].order)),
                },
            )
        } else {
            None
        }
    }

    /// `d` is the lowest handle whose dumb buffer carries identity `obj`.
    pub open spec fn first_dumb(self, obj: u32, d: u32) -> bool {
        &&& self.dumb.contains_key(d) && self.dumb[d].obj == obj
        &&& forall|c: u32| #[trigger]
            self.dumb.contains_key(c) && self.dumb[c].obj == obj ==> d <= c
    }

    /// No dumb buffer carries identity `obj`.
    pub open spec fn no_dumb(self, obj: u32) -> bool {
        forall|c: u32| #[trigger] self.dumb.contains_key(c) ==> self.dumb[c].obj != obj
    }

    /// Blob handle `handle` is gone, with the reference it held.
    pub open spec fn drop_handle(self, handle: u32) -> BoState {
        if self.handles.contains_key(handle) {
            BoState { handles: self.handles.remove(handle), ..self }.unref_blob(
                self.handles[handle].obj,
            )
        } else {
            self
        }
    }

    /// What dropping blob handle `handle` asks for.
    pub open spec fn handle_teardown(self, handle: u32) -> Option<BoTeardown> {
        if self.handles.contains_key(handle) && self.objs.contains_key(self.handles[handle].obj) {
            Some(self.blob_teardown(self.handles[handle].obj, self.handles[handle].ctx))
        } else {
            None
        }
    }

    /// The gem handle of dumb buffer `handle` is retired.
    pub open spec fn retire_dumb(self, handle: u32) -> BoState {
        if self.dumb_of(handle) is Some {
            self.unref_dumb(handle, true)
        } else {
            self
        }
    }

    /// `open_id` closed blob handle `handle`.
    pub open spec fn close_blob(self, handle: u32, open_id: u32) -> BoState {
        if self.handles.contains_key(handle) && may_reach(open_id, self.handles[handle].owner) {
            self.drop_handle(handle)
        } else {
            self
        }
    }

    /// `open_id` closed gem handle `handle`, whatever it named.
    pub open spec fn close(self, handle: u32, open_id: u32) -> BoState {
        self.retire_dumb(handle).close_blob(handle, open_id)
    }

    /// Some object's mapping covers physical address `phys`.
    pub open spec fn covers(o: BlobObj, phys: u64) -> bool {
        o.map_phys != 0 && o.map_phys <= phys && phys - o.map_phys < o.size
    }

    /// Blob handles `hs` are gone, one after the other.
    pub open spec fn drop_handles(self, hs: Seq<u32>) -> BoState
        decreases hs.len(),
    {
        if hs.len() == 0 {
            self
        } else {
            self.drop_handles(hs.drop_last()).drop_handle(hs.last())
        }
    }
}

impl BoState {
    /// A dumb buffer over the given pages, under a new handle.
    pub open spec fn add_dumb(self, phys: usize, order: usize) -> BoState {
        BoState {
            dumb: self.dumb.insert(
                self.next_dumb_handle,
                DumbBuf {
                    phys,
                    order,
                    last_fence: 0,
                    obj: self.next_obj,
                    refs: 1,
                    handle_live: true,
                },
            ),
            next_obj: wrap_next(self.next_obj),
            next_dumb_handle: (self.next_dumb_handle + 1) as u32,
            ..self
        }
    }

    /// A blob object, under a new handle of `owner` that is attached to `ctx`.
    pub open spec fn add_blob(self, b: NewBlob, owner: u32, ctx: u32) -> BoState {
        BoState {
            objs: self.objs.insert(
                self.next_obj,
                BlobObj {
                    phys: b.phys,
                    order: b.order,
                    res_handle: b.res_handle,
                    size: b.size,
                    last_fence: 0,
                    blob_mem: b.blob_mem,
                    win_off: 0,
                    map_phys: 0,
                    map_info: 0,
                    refs: 1,
                },
            ),
            handles: self.handles.insert(
                self.next_blob_handle,
                BlobHandle { obj: self.next_obj, owner, ctx },
            ),
            next_obj: wrap_next(self.next_obj),
            next_blob_handle: wrap_next(self.next_blob_handle),
            ..self
        }
    }

    /// `handle` is no blob handle at all and names a live dumb buffer.
    pub open spec fn plain_dumb(self, handle: u32) -> bool {
        !self.handles.contains_key(handle) && self.dumb_of(handle) is Some
    }

    /// `fence` is attached to the buffer that `handle` names for `open_id`.
    pub open spec fn attach(self, handle: u32, open_id: u32, fence: u64) -> BoState {
        if self.blob_of(handle, open_id) is Some {
            let k = self.handles[handle].obj;
            let o = self.objs[k];
            BoState { objs: self.objs.insert(k, BlobObj { last_fence: fence, ..o }), ..self }
        } else if self.plain_dumb(handle) {
            let b = self.dumb[handle];
            BoState {
                dumb: self.dumb.insert(handle, DumbBuf { last_fence: fence, ..b }),
                ..self
            }
        } else {
            self
        }
    }

    /// `fence` is attached to every buffer that `hs` names, in order.
    pub open spec fn attach_all(self, hs: Seq<u32>, open_id: u32, fence: u64) -> BoState
        decreases hs.len(),
    {
        if hs.len() == 0 {
            self
        } else {
            self.attach_all(hs.drop_last(), open_id, fence).attach(hs.last(), open_id, fence)
        }
    }

    /// One reference more on what `handle` names for `open_id`.
    pub open spec fn export(self, handle: u32, open_id: u32) -> BoState {
        if self.blob_of(handle, open_id) is Some {
            let k = self.handles[handle].obj;
            let o = self.objs[k];
            BoState { objs: self.objs.insert(k, BlobObj { refs: inc(o.refs), ..o }), ..self }
        } else if self.plain_dumb(handle) {
            let b = self.dumb[handle];
            BoState { dumb: self.dumb.insert(handle, DumbBuf { refs: inc(b.refs), ..b }), ..self }
        } else {
            self
        }
    }

    /// What an export of `handle` by `open_id` hands out.
    pub open spec fn export_of(self, handle: u32, open_id: u32) -> Option<PrimeExport> {
        if self.blob_of(handle, open_id) is Some {
            let o = self.objs[self.handles[handle].obj];
            Some(
                PrimeExport {
                    phys: o.phys,
                    order: o.order,
                    len: o.size as usize,
                    obj: self.handles[handle].obj,
                },
            )
        } else if self.plain_dumb(handle) {
            let b = self.dumb[handle];
            Some(
                PrimeExport {
                    phys: b.phys,
                    order: b.order,
                    len: block_bytes(b.order as int) as usize,
                    obj: b.obj,
                },
            )
        } else {
            None
        }
    }
}

impl BoState {
    /// A live object holds the window reservation at `off`.
    pub open spec fn holds_window(self, off: u64) -> bool {
        exists|o: u32| #[trigger]
            self.objs.contains_key(o) && self.objs[o].map_phys != 0 && self.objs[o].win_off == off
    }

    /// Blob object `obj` is mapped at window offset `off`, which is
    /// guest-physical address `token`.
    pub open spec fn mapped(self, obj: u32, off: u64, token: u64, map_info: u32) -> BoState {
        let o = self.objs[obj];
        BoState {
            objs: self.objs.insert(obj, BlobObj { win_off: off, map_phys: token, map_info, ..o }),
            ..self
        }
    }

    /// A device mapping at `phys` was handed out: the pages of a dumb buffer
    /// whose handle is live, the pages of a blob, or an address inside a mapped
    /// blob.
    pub open spec fn handed_out(self, phys: u64) -> bool {
        ||| exists|d: u32| #[trigger]
            self.dumb.contains_key(d) && self.dumb[d].handle_live && self.dumb[d].phys
                == phys as usize
        ||| exists|o: u32| #[trigger]
            self.objs.contains_key(o) && ((self.objs[o].phys != 0 && self.objs[o].phys
                == phys as usize) || BoState::covers(self.objs[o], phys))
    }

    /// The handles of blobs that `open_id` owns.
    pub open spec fn owned_by(self, open_id: u32) -> Set<u32> {
        self.handles.dom().filter(|h: u32| self.handles[h].owner == open_id)
    }
}

/// What a blob is made of: the pages behind it, the host resource, and what was
/// asked for.
#[derive(Debug, Clone, Copy, PartialEq, Eq, Structural)]
pub struct NewBlob {
    pub phys: usize,
    pub order: usize,
    pub res_handle: u32,
    pub size: u64,
    pub blob_mem: u32,
}

/// Taking out a handle leaves one fewer that names its object, and the same
/// ones for every other object.
proof fn lemma_naming_remove(handles: Map<u32, BlobHandle>, h: u32)
    requires
        handles.dom().finite(),
        handles.contains_key(h),
    ensures
        naming(handles.remove(h), handles[h].obj).len() + 1 == naming(handles, handles[h].obj).len(),
        forall|o: u32|
            o != handles[h].obj ==> #[trigger] naming(handles.remove(h), o) == naming(handles, o),
{
    let obj = handles[h].obj;
    assert(naming(handles.remove(h), obj) =~= naming(handles, obj).remove(h));
    assert(naming(handles, obj).contains(h));
    assert forall|o: u32| o != obj implies #[trigger] naming(handles.remove(h), o) == naming(
        handles,
        o,
    ) by {
        assert(naming(handles.remove(h), o) =~= naming(handles, o));
    }
}

/// A new handle is the only addition to those that name its object.
proof fn lemma_naming_insert(handles: Map<u32, BlobHandle>, h: u32, b: BlobHandle)
    requires
        handles.dom().finite(),
        !handles.contains_key(h),
    ensures
        naming(handles.insert(h, b), b.obj).len() == naming(handles, b.obj).len() + 1,
        forall|o: u32| o != b.obj ==> #[trigger] naming(handles.insert(h, b), o) == naming(handles, o),
{
    assert(naming(handles.insert(h, b), b.obj) =~= naming(handles, b.obj).insert(h));
    assert forall|o: u32| o != b.obj implies #[trigger] naming(handles.insert(h, b), o) == naming(
        handles,
        o,
    ) by {
        assert(naming(handles.insert(h, b), o) =~= naming(handles, o));
    }
}

/// The registry stays well-formed when a dumb buffer is added.
pub proof fn lemma_add_dumb_wf(s: BoState, phys: usize, order: usize)
    requires
        s.wf(),
        0 < s.next_obj < u32::MAX,
        s.next_dumb_handle < u32::MAX,
        order < usize::BITS,
        block_bytes(order as int) <= usize::MAX,
    ensures
        s.add_dumb(phys, order).wf(),
{
    let t = s.add_dumb(phys, order);
    assert(!s.dumb.contains_key(s.next_dumb_handle));
    assert(t.handles =~= s.handles);
}

/// The registry stays well-formed when a blob is added.
pub proof fn lemma_add_blob_wf(s: BoState, b: NewBlob, owner: u32, ctx: u32)
    requires
        s.wf(),
        0 < s.next_obj < u32::MAX,
        s.next_blob_handle < u32::MAX,
        0 < b.size <= MAX_BLOB_BYTES,
    ensures
        s.add_blob(b, owner, ctx).wf(),
{
    let t = s.add_blob(b, owner, ctx);
    let h = s.next_blob_handle;
    let bh = BlobHandle { obj: s.next_obj, owner, ctx };
    assert(!s.handles.contains_key(h));
    lemma_naming_insert(s.handles, h, bh);
    assert(naming(s.handles, s.next_obj) =~= Set::<u32>::empty()) by {
        assert forall|k: u32| !naming(s.handles, s.next_obj).contains(k) by {
            if s.handles.contains_key(k) {
                assert(s.objs.contains_key(s.handles[k].obj));
            }
        }
    }
    assert forall|o: u32| #[trigger] t.objs.contains_key(o) implies naming(t.handles, o).len()
        <= t.objs[o].refs by {
        if o != s.next_obj {
            assert(s.objs.contains_key(o));
        }
    }
}

/// Dropping a blob handle keeps the registry well-formed, and the number of
/// exports of its object.
pub proof fn lemma_drop_handle_wf(s: BoState, h: u32)
    requires
        s.wf(),
        s.handles.contains_key(h),
    ensures
        s.drop_handle(h).wf(),
        s.drop_handle(h).objs.contains_key(s.handles[h].obj) <==> {
            ||| s.exports(s.handles[h].obj) > 0
            ||| naming(s.handles, s.handles[h].obj).len() > 1
        },
        s.drop_handle(h).objs.contains_key(s.handles[h].obj) ==> s.drop_handle(h).exports(
            s.handles[h].obj,
        ) == s.exports(s.handles[h].obj),
        !s.drop_handle(h).handles.contains_key(h),
{
    lemma_naming_remove(s.handles, h);
    let obj = s.handles[h].obj;
    let t = s.drop_handle(h);
    assert(s.objs.contains_key(obj));
    assert(t.handles == s.handles.remove(h));
    assert forall|k: u32| #[trigger] t.handles.contains_key(k) implies t.objs.contains_key(
        t.handles[k].obj,
    ) by {
        assert(s.handles.contains_key(k));
        if t.handles[k].obj == obj {
            assert(naming(t.handles, obj).contains(k));
            if dec(s.objs[obj].refs) == 0 {
                assert(naming(t.handles, obj).len() == 0);
                assert(naming(t.handles, obj) =~= Set::<u32>::empty());
            }
        }
    }
    assert forall|o: u32| #[trigger] t.objs.contains_key(o) implies naming(t.handles, o).len()
        <= t.objs[o].refs by {
        assert(s.objs.contains_key(o));
    }
}

/// Releasing an export keeps the registry well-formed.
pub proof fn lemma_unref_blob_wf(s: BoState, obj: u32)
    requires
        s.wf(),
        s.objs.contains_key(obj),
        s.exports(obj) > 0,
    ensures
        s.unref_blob(obj).wf(),
        s.unref_blob(obj).objs.contains_key(obj) ==> s.unref_blob(obj).exports(obj) == s.exports(
            obj,
        ) - 1,
{
    let t = s.unref_blob(obj);
    assert forall|k: u32| #[trigger] t.handles.contains_key(k) implies t.objs.contains_key(
        t.handles[k].obj,
    ) by {
        assert(s.handles.contains_key(k));
        if t.handles[k].obj == obj && dec(s.objs[obj].refs) == 0 {
            assert(naming(s.handles, obj).contains(k));
            assert(naming(s.handles, obj).len() == 0);
            assert(naming(s.handles, obj) =~= Set::<u32>::empty());
        }
    }
    assert forall|o: u32| #[trigger] t.objs.contains_key(o) implies naming(t.handles, o).len()
        <= t.objs[o].refs by {
        assert(s.objs.contains_key(o));
    }
}

/// Dropping a reference on a dumb buffer keeps the registry well-formed.
pub proof fn lemma_unref_dumb_wf(s: BoState, d: u32, retire: bool)
    requires
        s.wf(),
        s.dumb.contains_key(d),
    ensures
        s.unref_dumb(d, retire).wf(),
{
    let t = s.unref_dumb(d, retire);
    assert forall|o: u32| #[trigger] t.objs.contains_key(o) implies naming(t.handles, o).len()
        <= t.objs[o].refs by {
        assert(s.objs.contains_key(o));
    }
}

/// The live buffer objects and the handles that name them.
pub struct BoRegistry {
    dumb: BTreeMap<u32, DumbBuf>,
    objs: BTreeMap<u32, BlobObj>,
    handles: BTreeMap<u32, BlobHandle>,
    window: HostvisWindow,
    next_obj: u32,
    next_blob_handle: u32,
    next_dumb_handle: u32,
}

impl View for BoRegistry {
    type V = BoState;

    closed spec fn view(&self) -> BoState {
        BoState {
            dumb: self.dumb@,
            objs: self.objs@,
            handles: self.handles@,
            window: self.window@,
            next_obj: self.next_obj,
            next_blob_handle: self.next_blob_handle,
            next_dumb_handle: self.next_dumb_handle,
        }
    }
}

/// Whether `caller` may reach a buffer of `owner`.
pub fn open_may_reach(caller: u32, owner: u32) -> (r: bool)
    ensures
        r == may_reach(caller, owner),
{
    caller == 0 || owner == 0 || caller == owner
}

impl BoRegistry {
    /// The window's own table is well-formed, and so is the registry.
    pub closed spec fn window_wf(&self) -> bool {
        self.window.wf()
    }

    /// The registry and its window are well-formed.
    pub open spec fn inv(&self) -> bool {
        self@.wf() && self.window_wf()
    }

    /// A registry with nothing in it.
    pub fn new() -> (r: Self)
        ensures
            r.inv(),
            r@ == (BoState {
                dumb: Map::empty(),
                objs: Map::empty(),
                handles: Map::empty(),
                window: Map::empty(),
                next_obj: 1,
                next_blob_handle: FIRST_BLOB_HANDLE,
                next_dumb_handle: 1,
            }),
    {
        BoRegistry {
            dumb: BTreeMap::new(),
            objs: BTreeMap::new(),
            handles: BTreeMap::new(),
            window: HostvisWindow::new(),
            next_obj: 1,
            next_blob_handle: FIRST_BLOB_HANDLE,
            next_dumb_handle: 1,
        }
    }

    /// The identity for a new buffer object.
    fn take_obj_id(&mut self) -> (obj: u32)
        ensures
            obj == old(self)@.next_obj,
            final(self)@ == (BoState { next_obj: wrap_next(old(self)@.next_obj), ..old(self)@ }),
            final(self).window_wf() == old(self).window_wf(),
    {
        let obj = self.next_obj;
        self.next_obj = self.next_obj.wrapping_add(1);
        obj
    }

    /// Resolves a blob handle for `open_id`: `None` if there is no such handle
    /// or it belongs to another open.
    pub fn blob_lookup(&self, handle: u32, open_id: u32) -> (r: Option<BlobView>)
        ensures
            r == self@.blob_of(handle, open_id),
    {
        let h = match lookup(&self.handles, handle) {
            Some(h) => h,
            None => {
                return None;
            },
        };
        if !open_may_reach(open_id, h.owner) {
            return None;
        }
        match lookup(&self.objs, h.obj) {
            Some(o) => Some(BlobView::join(h.obj, o)),
            None => None,
        }
    }

    /// Resolves a live dumb-buffer handle. A retired one resolves to nothing.
    pub fn dumb_lookup(&self, handle: u32) -> (r: Option<DumbBuf>)
        ensures
            r == self@.dumb_of(handle),
    {
        match lookup(&self.dumb, handle) {
            Some(b) => if b.handle_live {
                Some(b)
            } else {
                None
            },
            None => None,
        }
    }

    /// Physical base and allocation order of a dumb buffer.
    pub fn dumb_buffer_phys_order(&self, handle: u32) -> (r: Option<(usize, usize)>)
        ensures
            r == match self@.dumb_of(handle) {
                Some(b) => Some((b.phys, b.order)),
                None => None,
            },
    {
        match self.dumb_lookup(handle) {
            Some(b) => Some((b.phys, b.order)),
            None => None,
        }
    }

    /// Whether `handle` names a buffer of either kind that `open_id` may reach.
    pub fn bo_exists(&self, handle: u32, open_id: u32) -> (r: bool)
        ensures
            r == self@.names_bo(handle, open_id),
    {
        if self.blob_lookup(handle, open_id).is_some() {
            return true;
        }
        self.dumb_lookup(handle).is_some()
    }

    /// The fence of the work last submitted against `handle`; 0 if there was
    /// none, `None` if the handle names nothing `open_id` may reach.
    pub fn bo_fence(&self, handle: u32, open_id: u32) -> (r: Option<u64>)
        ensures
            r == self@.fence_of(handle, open_id),
    {
        match self.blob_lookup(handle, open_id) {
            Some(b) => Some(b.last_fence),
            None => match self.dumb_lookup(handle) {
                Some(b) => Some(b.last_fence),
                None => None,
            },
        }
    }

    /// How many blob objects are live.
    pub fn blob_obj_count(&self) -> (n: u32)
        ensures
            n == self@.objs.dom().len() as u32,
    {
        count(&self.objs) as u32
    }

    /// Records a dumb buffer over the pages at `phys` and gives it a handle.
    pub fn add_dumb(&mut self, phys: usize, order: usize) -> (handle: u32)
        requires
            old(self)@.next_dumb_handle < u32::MAX,
            order < usize::BITS,
            block_bytes(order as int) <= usize::MAX,
        ensures
            handle == old(self)@.next_dumb_handle,
            final(self)@ == old(self)@.add_dumb(phys, order),
            old(self).inv() && 0 < old(self)@.next_obj < u32::MAX ==> final(self).inv(),
    {
        let ghost before = self@;
        let handle = self.next_dumb_handle;
        self.next_dumb_handle = self.next_dumb_handle + 1;
        let obj = self.take_obj_id();
        store(
            &mut self.dumb,
            handle,
            DumbBuf { phys, order, last_fence: 0, obj, refs: 1, handle_live: true },
        );
        proof {
            assert(self@ =~= before.add_dumb(phys, order));
            if before.wf() && 0 < before.next_obj < u32::MAX {
                lemma_add_dumb_wf(before, phys, order);
            }
        }
        handle
    }

    /// Records a blob object and gives it a handle of `owner`, attached to
    /// `ctx`. The handle is the object's first reference.
    pub fn add_blob(&mut self, b: NewBlob, owner: u32, ctx: u32) -> (handle: u32)
        ensures
            handle == old(self)@.next_blob_handle,
            final(self)@ == old(self)@.add_blob(b, owner, ctx),
            old(self).inv() && 0 < old(self)@.next_obj < u32::MAX && old(self)@.next_blob_handle
                < u32::MAX && 0 < b.size <= MAX_BLOB_BYTES ==> final(self).inv(),
    {
        let ghost before = self@;
        let obj = self.take_obj_id();
        store(
            &mut self.objs,
            obj,
            BlobObj {
                phys: b.phys,
                order: b.order,
                res_handle: b.res_handle,
                size: b.size,
                last_fence: 0,
                blob_mem: b.blob_mem,
                win_off: 0,
                map_phys: 0,
                map_info: 0,
                refs: 1,
            },
        );
        let handle = self.next_blob_handle;
        self.next_blob_handle = self.next_blob_handle.wrapping_add(1);
        store(&mut self.handles, handle, BlobHandle { obj, owner, ctx });
        proof {
            assert(self@ =~= before.add_blob(b, owner, ctx));
            if before.wf() && 0 < before.next_obj < u32::MAX && before.next_blob_handle < u32::MAX
                && 0 < b.size <= MAX_BLOB_BYTES {
                lemma_add_blob_wf(before, b, owner, ctx);
            }
        }
        handle
    }

    /// Attaches `fence` to what `handle` names; false if it names nothing that
    /// `open_id` may reach.
    pub fn bo_attach_fence(&mut self, handle: u32, open_id: u32, fence: u64) -> (r: bool)
        ensures
            final(self)@ == old(self)@.attach(handle, open_id, fence),
            r == (old(self)@.blob_of(handle, open_id) is Some || old(self)@.plain_dumb(handle)),
            old(self).inv() ==> final(self).inv(),
    {
        let ghost before = self@;
        match lookup(&self.handles, handle) {
            Some(h) => {
                if !open_may_reach(open_id, h.owner) {
                    return false;
                }
                match lookup(&self.objs, h.obj) {
                    Some(o) => {
                        store(&mut self.objs, h.obj, BlobObj { last_fence: fence, ..o });
                        assert(self@ =~= before.attach(handle, open_id, fence));
                        true
                    },
                    None => false,
                }
            },
            None => match lookup(&self.dumb, handle) {
                Some(b) => {
                    if !b.handle_live {
                        return false;
                    }
                    store(&mut self.dumb, handle, DumbBuf { last_fence: fence, ..b });
                    assert(self@ =~= before.attach(handle, open_id, fence));
                    true
                },
                None => false,
            },
        }
    }

    /// Resolves `handle` for an export by `open_id` and takes one reference on
    /// the object for it. `None` if the handle names nothing that `open_id` may
    /// reach.
    pub fn prime_export_acquire(&mut self, handle: u32, open_id: u32) -> (r: Option<PrimeExport>)
        requires
            old(self).inv(),
        ensures
            r == old(self)@.export_of(handle, open_id),
            final(self)@ == old(self)@.export(handle, open_id),
            final(self).inv(),
    {
        let ghost before = self@;
        match lookup(&self.handles, handle) {
            Some(h) => {
                if !open_may_reach(open_id, h.owner) {
                    return None;
                }
                match lookup(&self.objs, h.obj) {
                    Some(o) => {
                        store(
                            &mut self.objs,
                            h.obj,
                            BlobObj { refs: o.refs.saturating_add(1), ..o },
                        );
                        assert(self@ =~= before.export(handle, open_id));
                        Some(
                            PrimeExport {
                                phys: o.phys,
                                order: o.order,
                                len: o.size as usize,
                                obj: h.obj,
                            },
                        )
                    },
                    None => None,
                }
            },
            None => match lookup(&self.dumb, handle) {
                Some(b) => {
                    if !b.handle_live {
                        return None;
                    }
                    proof {
                        assert(before.dumb.contains_key(handle));
                        vstd::bits::lemma_usize_shl_is_mul(1, b.order);
                    }
                    store(&mut self.dumb, handle, DumbBuf { refs: b.refs.saturating_add(1), ..b });
                    assert(self@ =~= before.export(handle, open_id));
                    Some(
                        PrimeExport {
                            phys: b.phys,
                            order: b.order,
                            len: (1usize << b.order) * 4096,
                            obj: b.obj,
                        },
                    )
                },
                None => None,
            },
        }
    }

    /// Drops one reference on blob object `obj`, and the context binding
    /// `detach_ctx` of the handle that held it (0 for an export). `None` if
    /// there is no such object. The decrement and the removal are one step, so
    /// no second caller can see the count reach zero.
    pub fn blob_unref(&mut self, obj: u32, detach_ctx: u32) -> (r: Option<BoTeardown>)
        ensures
            final(self)@ == old(self)@.unref_blob(obj),
            r == (if old(self)@.objs.contains_key(obj) {
                Some(old(self)@.blob_teardown(obj, detach_ctx))
            } else {
                None
            }),
            final(self).window_wf() == old(self).window_wf(),
            old(self).inv() && (old(self)@.objs.contains_key(obj) ==> old(self)@.exports(obj) > 0)
                ==> final(self).inv(),
    {
        let ghost before = self@;
        let o = match lookup(&self.objs, obj) {
            Some(o) => o,
            None => {
                return None;
            },
        };
        let refs = o.refs.saturating_sub(1);
        let dead = refs == 0;
        if dead {
            let _ = take(&mut self.objs, obj);
        } else {
            store(&mut self.objs, obj, BlobObj { refs, ..o });
        }
        proof {
            assert(self@ =~= before.unref_blob(obj));
            if before.wf() && before.exports(obj) > 0 {
                lemma_unref_blob_wf(before, obj);
            }
        }
        Some(
            BoTeardown {
                res_handle: o.res_handle,
                unmap: dead && o.map_phys != 0,
                detach_ctx,
                unref: dead,
                window: if dead && o.map_phys != 0 {
                    Some(o.win_off)
                } else {
                    None
                },
                pages: if dead && o.phys != 0 {
                    Some((o.phys, o.order))
                } else {
                    None
                },
            },
        )
    }

    /// The lowest handle of a dumb buffer with identity `obj`.
    fn find_dumb(&self, obj: u32) -> (r: Option<u32>)
        ensures
            match r {
                Some(d) => self@.first_dumb(obj, d),
                None => self@.no_dumb(obj),
            },
    {
        let all = entries_u32(&self.dumb);
        let mut i: usize = 0;
        while i < all.len()
            invariant
                i <= all.len(),
                lists_u32(all@, self@.dumb),
                forall|k: int| 0 <= k < i ==> (#[trigger] all@[k]).1.obj != obj,
            decreases all.len() - i,
        {
            let (d, b) = all[i];
            if b.obj == obj {
                assert(all@[i as int] == (d, b));
                assert forall|c: u32| #[trigger]
                    self@.dumb.contains_key(c) && self@.dumb[c].obj == obj implies d <= c by {
                    let p = choose|p: int| 0 <= p < all.len() && #[trigger] all@[p] == (c, self@.dumb[c]);
                    if p < i {
                        assert(all@[p].1.obj != obj);
                    } else if p > i {
                        assert(all@[i as int].0 < all@[p].0);
                    }
                }
                return Some(d);
            }
            i += 1;
        }
        assert forall|c: u32| #[trigger] self@.dumb.contains_key(c) implies self@.dumb[c].obj
            != obj by {
            let p = choose|p: int| 0 <= p < all.len() && #[trigger] all@[p] == (c, self@.dumb[c]);
            assert(all@[p].1.obj != obj);
        }
        None
    }

    /// Drops one reference on the dumb buffer with identity `obj`. The outer
    /// `None` says that no dumb buffer carries it.
    pub fn dumb_unref_by_obj(&mut self, obj: u32) -> (r: Option<Option<BoTeardown>>)
        ensures
            r is None <==> old(self)@.no_dumb(obj),
            r is None ==> final(self)@ == old(self)@,
            r is Some ==> exists|d: u32| #[trigger]
                old(self)@.first_dumb(obj, d) && final(self)@ == old(self)@.unref_dumb(d, false)
                    && r == Some(old(self)@.dumb_teardown(d)),
            old(self).inv() ==> final(self).inv(),
            final(self).window_wf() == old(self).window_wf(),
    {
        let ghost before = self@;
        let d = match self.find_dumb(obj) {
            Some(d) => d,
            None => {
                return None;
            },
        };
        assert(before.first_dumb(obj, d));
        let b = match lookup(&self.dumb, d) {
            Some(b) => b,
            None => {
                return None;
            },
        };
        let refs = b.refs.saturating_sub(1);
        if refs == 0 {
            let _ = take(&mut self.dumb, d);
        } else {
            store(&mut self.dumb, d, DumbBuf { refs, ..b });
        }
        proof {
            assert(self@ =~= before.unref_dumb(d, false));
            if before.wf() {
                lemma_unref_dumb_wf(before, d, false);
            }
        }
        if refs == 0 {
            Some(
                Some(
                    BoTeardown {
                        res_handle: 0,
                        unmap: false,
                        detach_ctx: 0,
                        unref: false,
                        window: None,
                        pages: Some((b.phys, b.order)),
                    },
                ),
            )
        } else {
            Some(None)
        }
    }

    /// An export of object `obj` is gone: drops the reference it held.
    pub fn bo_release_exported(&mut self, obj: u32) -> (r: ExportRelease)
        ensures
            r is Ignored <==> obj == 0,
            r is Underflow <==> obj != 0 && !old(self)@.objs.contains_key(obj) && old(
                self,
            )@.no_dumb(obj),
            r is Ignored || r is Underflow ==> final(self)@ == old(self)@,
            obj != 0 && old(self)@.objs.contains_key(obj) ==> {
                &&& final(self)@ == old(self)@.unref_blob(obj)
                &&& r == ExportRelease::Released(Some(old(self)@.blob_teardown(obj, 0)))
            },
            obj != 0 && !old(self)@.objs.contains_key(obj) && !old(self)@.no_dumb(obj)
                ==> exists|d: u32| #[trigger]
                old(self)@.first_dumb(obj, d) && final(self)@ == old(self)@.unref_dumb(d, false)
                    && r == ExportRelease::Released(old(self)@.dumb_teardown(d)),
            old(self).inv() && (obj != 0 && old(self)@.objs.contains_key(obj) ==> old(
                self,
            )@.exports(obj) > 0) ==> final(self).inv(),
    {
        if obj == 0 {
            return ExportRelease::Ignored;
        }
        match self.blob_unref(obj, 0) {
            Some(t) => ExportRelease::Released(Some(t)),
            None => match self.dumb_unref_by_obj(obj) {
                Some(t) => ExportRelease::Released(t),
                None => ExportRelease::Underflow,
            },
        }
    }

    /// Retires the gem handle of a dumb buffer and drops the reference it held.
    /// A handle that is unknown, or retired already, is left alone.
    pub fn free_dumb(&mut self, handle: u32) -> (r: Option<BoTeardown>)
        ensures
            final(self)@ == old(self)@.retire_dumb(handle),
            r == (if old(self)@.dumb_of(handle) is Some {
                old(self)@.dumb_teardown(handle)
            } else {
                None
            }),
            old(self).inv() ==> final(self).inv(),
            final(self).window_wf() == old(self).window_wf(),
    {
        let ghost before = self@;
        let b = match lookup(&self.dumb, handle) {
            Some(b) => b,
            None => {
                return None;
            },
        };
        if !b.handle_live {
            return None;
        }
        let refs = b.refs.saturating_sub(1);
        if refs == 0 {
            let _ = take(&mut self.dumb, handle);
        } else {
            store(&mut self.dumb, handle, DumbBuf { refs, handle_live: false, ..b });
        }
        proof {
            assert(self@ =~= before.retire_dumb(handle));
            if before.wf() {
                lemma_unref_dumb_wf(before, handle, true);
            }
        }
        if refs == 0 {
            Some(
                BoTeardown {
                    res_handle: 0,
                    unmap: false,
                    detach_ctx: 0,
                    unref: false,
                    window: None,
                    pages: Some((b.phys, b.order)),
                },
            )
        } else {
            None
        }
    }

    /// Retires a blob handle, whoever owns it, and drops the reference it held.
    pub fn free_blob(&mut self, handle: u32) -> (r: Option<BoTeardown>)
        ensures
            final(self)@ == old(self)@.drop_handle(handle),
            r == old(self)@.handle_teardown(handle),
            old(self).inv() ==> final(self).inv(),
            final(self).window_wf() == old(self).window_wf(),
    {
        let ghost before = self@;
        match take(&mut self.handles, handle) {
            Some(h) => {
                assert(self@ =~= BoState { handles: before.handles.remove(handle), ..before });
                let r = self.blob_unref(h.obj, h.ctx);
                proof {
                    if before.wf() {
                        lemma_drop_handle_wf(before, handle);
                    }
                }
                r
            },
            None => {
                assert(self@ =~= before);
                None
            },
        }
    }

    /// Retires a blob handle if `open_id` may reach it.
    pub fn free_blob_owned(&mut self, handle: u32, open_id: u32) -> (r: Option<BoTeardown>)
        ensures
            final(self)@ == old(self)@.close_blob(handle, open_id),
            r == (if old(self)@.handles.contains_key(handle) && may_reach(
                open_id,
                old(self)@.handles[handle].owner,
            ) {
                old(self)@.handle_teardown(handle)
            } else {
                None
            }),
            old(self).inv() ==> final(self).inv(),
            final(self).window_wf() == old(self).window_wf(),
    {
        let may = match lookup(&self.handles, handle) {
            Some(h) => open_may_reach(open_id, h.owner),
            None => false,
        };
        if may {
            self.free_blob(handle)
        } else {
            None
        }
    }

    /// The one way a gem handle is retired, for GEM_CLOSE and DESTROY_DUMB
    /// alike: first as a dumb buffer, next as a blob that `open_id` may reach.
    pub fn gem_handle_delete(&mut self, handle: u32, open_id: u32) -> (r: (
        Option<BoTeardown>,
        Option<BoTeardown>,
    ))
        ensures
            final(self)@ == old(self)@.close(handle, open_id),
            r.0 == (if old(self)@.dumb_of(handle) is Some {
                old(self)@.dumb_teardown(handle)
            } else {
                None
            }),
            r.1 == (if old(self)@.handles.contains_key(handle) && may_reach(
                open_id,
                old(self)@.handles[handle].owner,
            ) {
                old(self)@.handle_teardown(handle)
            } else {
                None
            }),
            old(self).inv() ==> final(self).inv(),
    {
        let dumb = self.free_dumb(handle);
        let blob = self.free_blob_owned(handle, open_id);
        (dumb, blob)
    }
}

impl BoRegistry {
    /// The blob handles that `open_id` owns, by ascending handle.
    pub fn owned_handles(&self, open_id: u32) -> (hs: Vec<u32>)
        ensures
            hs@.to_set() == self@.owned_by(open_id),
            forall|i: int, j: int| 0 <= i < j < hs.len() ==> hs@[i] < hs@[j],
    {
        let all = entries_u32(&self.handles);
        let mut hs: Vec<u32> = Vec::new();
        let mut i: usize = 0;
        while i < all.len()
            invariant
                i <= all.len(),
                lists_u32(all@, self@.handles),
                forall|k: int|
                    0 <= k < hs.len() ==> self@.owned_by(open_id).contains(#[trigger] hs@[k]),
                forall|k: int| 0 <= k < hs.len() && i < all.len() ==> (#[trigger] hs@[k]) < all@[i as int].0,
                forall|a: int, b: int| 0 <= a < b < hs.len() ==> hs@[a] < hs@[b],
                forall|k: int|
                    0 <= k < i && (#[trigger] all@[k]).1.owner == open_id ==> hs@.contains(all@[k].0),
            decreases all.len() - i,
        {
            let (h, b) = all[i];
            let ghost prev = hs@;
            assert(self@.handles.contains_key(all@[i as int].0));
            if b.owner == open_id {
                hs.push(h);
                assert(hs@[prev.len() as int] == h);
            }
            assert forall|k: int| 0 <= k < i + 1 && (#[trigger] all@[k]).1.owner == open_id implies hs@.contains(
                all@[k].0,
            ) by {
                if k < i {
                    let p = choose|p: int| 0 <= p < prev.len() && prev[p] == all@[k].0;
                    assert(hs@[p] == all@[k].0);
                }
            }
            if i + 1 < all.len() {
                assert(all@[i as int].0 < all@[i + 1].0);
            }
            i += 1;
        }
        proof {
            assert forall|h: u32| self@.owned_by(open_id).contains(h) implies hs@.to_set().contains(h) by {
                assert(self@.handles.contains_key(h));
                let p = choose|p: int| 0 <= p < all.len() && #[trigger] all@[p] == (h, self@.handles[h]);
                assert(hs@.contains(all@[p].0));
            }
            assert(hs@.to_set() =~= self@.owned_by(open_id));
        }
        hs
    }

    /// Drops every blob handle that `open_id` owns, and says in order what each
    /// asks for. An object that something else still references stays.
    pub fn release_owned(&mut self, open_id: u32) -> (r: Vec<BoTeardown>)
        requires
            old(self).inv(),
        ensures
            final(self).inv(),
            exists|hs: Seq<u32>| #[trigger]
                listing(hs, old(self)@.owned_by(open_id)) && final(self)@ == old(
                    self,
                )@.drop_handles(hs) && r@ == teardowns(old(self)@, hs),
            final(self)@.owned_by(open_id) == Set::<u32>::empty(),
            forall|h: u32|
                old(self)@.handles.contains_key(h) && old(self)@.handles[h].owner != open_id
                    ==> #[trigger] final(self)@.handles.contains_key(h) && final(self)@.handles[h]
                    == old(self)@.handles[h],
    {
        let ghost before = self@;
        let hs = self.owned_handles(open_id);
        let mut r: Vec<BoTeardown> = Vec::new();
        let mut i: usize = 0;
        proof {
            assert(hs@.take(0) =~= Seq::<u32>::empty());
            assert forall|k: int| 0 <= k < hs.len() implies before.handles.contains_key(
                #[trigger] hs@[k],
            ) && before.handles[hs@[k]].owner == open_id by {
                assert(hs@.to_set().contains(hs@[k]));
                assert(before.owned_by(open_id).contains(hs@[k]));
            }
        }
        while i < hs.len()
            invariant
                i <= hs.len(),
                self.inv(),
                self@ == before.drop_handles(hs@.take(i as int)),
                r@ == teardowns(before, hs@.take(i as int)),
                self@.handles == before.handles.remove_keys(hs@.take(i as int).to_set()),
                forall|k: int|
                    0 <= k < hs.len() ==> before.handles.contains_key(#[trigger] hs@[k])
                        && before.handles[hs@[k]].owner == open_id,
                forall|a: int, b: int| 0 <= a < b < hs.len() ==> hs@[a] < hs@[b],
            decreases hs.len() - i,
        {
            let h = hs[i];
            let ghost mid = self@;
            proof {
                assert(hs@.take(i + 1).drop_last() =~= hs@.take(i as int));
                assert(hs@.take(i + 1).last() == h);
                assert(!hs@.take(i as int).to_set().contains(h)) by {
                    if hs@.take(i as int).to_set().contains(h) {
                        let p = choose|p: int| 0 <= p < i && hs@.take(i as int)[p] == h;
                        assert(hs@[p] < hs@[i as int]);
                    }
                }
                assert(before.handles.contains_key(hs@[i as int]));
                assert(mid.handles.contains_key(h));
                assert(mid.objs.contains_key(mid.handles[h].obj));
            }
            match self.free_blob(h) {
                Some(t) => {
                    r.push(t);
                },
                None => {},
            }
            proof {
                assert(hs@.take(i + 1).to_set() =~= hs@.take(i as int).to_set().insert(h)) by {
                    assert forall|x: u32| hs@.take(i + 1).to_set().contains(x) implies hs@.take(
                        i as int,
                    ).to_set().insert(h).contains(x) by {
                        let upto = hs@.take(i + 1);
                        let p = choose|p: int| 0 <= p < upto.len() && upto[p] == x;
                        if p < i {
                            assert(hs@.take(i as int)[p] == x);
                        }
                    }
                    assert forall|x: u32| hs@.take(i as int).to_set().insert(h).contains(
                        x,
                    ) implies hs@.take(i + 1).to_set().contains(x) by {
                        if x == h {
                            assert(hs@.take(i + 1)[i as int] == x);
                        } else {
                            let p = choose|p: int| 0 <= p < i && hs@.take(i as int)[p] == x;
                            assert(hs@.take(i + 1)[p] == x);
                        }
                    }
                }
                assert(self@.handles =~= before.handles.remove_keys(hs@.take(i + 1).to_set()));
            }
            i += 1;
        }
        proof {
            assert(hs@.take(hs.len() as int) =~= hs@);
            assert(listing(hs@, before.owned_by(open_id)));
            assert(self@.owned_by(open_id) =~= Set::<u32>::empty());
        }
        r
    }

    /// How many dumb buffers, retired dumb buffers, blob objects and blob
    /// handles there are. Derived from the maps, not counted along the way.
    pub fn bo_census(&self) -> (r: (u64, u64, u64, u64))
        ensures
            r.0 == self@.dumb.dom().len(),
            r.1 == self@.dumb.dom().filter(|d: u32| !self@.dumb[d].handle_live).len(),
            r.2 == self@.objs.dom().len(),
            r.3 == self@.handles.dom().len(),
    {
        let all = entries_u32(&self.dumb);
        let mut retired: u64 = 0;
        let mut i: usize = 0;
        let ghost mut seen: Set<u32> = Set::empty();
        while i < all.len()
            invariant
                i <= all.len(),
                lists_u32(all@, self@.dumb),
                retired <= i,
                seen.finite(),
                seen.len() == retired,
                forall|d: u32| #[trigger]
                    seen.contains(d) <==> exists|k: int|
                        0 <= k < i && (#[trigger] all@[k]).0 == d && !all@[k].1.handle_live,
            decreases all.len() - i,
        {
            let (d, b) = all[i];
            let ghost was = seen;
            assert(all@[i as int] == (d, b));
            if !b.handle_live {
                proof {
                    assert(!seen.contains(d)) by {
                        if seen.contains(d) {
                            let k = choose|k: int|
                                0 <= k < i && (#[trigger] all@[k]).0 == d && !all@[k].1.handle_live;
                            assert(all@[k].0 < all@[i as int].0);
                        }
                    }
                    seen = seen.insert(d);
                }
                retired = retired + 1;
            }
            assert forall|x: u32| #[trigger] seen.contains(x) <==> exists|k: int|
                0 <= k < i + 1 && (#[trigger] all@[k]).0 == x && !all@[k].1.handle_live by {
                if was.contains(x) {
                    let k = choose|k: int|
                        0 <= k < i && (#[trigger] all@[k]).0 == x && !all@[k].1.handle_live;
                    assert(all@[k].0 == x);
                }
                if exists|k: int| 0 <= k < i + 1 && (#[trigger] all@[k]).0 == x && !all@[k].1.handle_live {
                    let k = choose|k: int|
                        0 <= k < i + 1 && (#[trigger] all@[k]).0 == x && !all@[k].1.handle_live;
                    if k < i {
                        assert(was.contains(x));
                    }
                }
            }
            i += 1;
        }
        proof {
            let want = self@.dumb.dom().filter(|d: u32| !self@.dumb[d].handle_live);
            assert forall|d: u32| seen.contains(d) <==> want.contains(d) by {
                if seen.contains(d) {
                    let k = choose|k: int|
                        0 <= k < all.len() && (#[trigger] all@[k]).0 == d && !all@[k].1.handle_live;
                    assert(self@.dumb.contains_key(all@[k].0));
                }
                if want.contains(d) {
                    assert(self@.dumb.contains_key(d));
                    let p = choose|p: int| 0 <= p < all.len() && #[trigger] all@[p] == (d, self@.dumb[d]);
                    assert(all@[p].0 == d && !all@[p].1.handle_live);
                }
            }
            assert(seen =~= want);
        }
        (
            count(&self.dumb) as u64,
            retired,
            count(&self.objs) as u64,
            count(&self.handles) as u64,
        )
    }
}

impl BoRegistry {
    /// How many window reservations are live.
    pub fn hostvis_span_count(&self) -> (n: u32)
        requires
            self.inv(),
        ensures
            n == self@.window.dom().len(),
    {
        self.window.span_count() as u32
    }

    /// First half of mapping a host blob: reserves window space for `b` in the
    /// window the device advertised (base and length). `Unsupported` without a
    /// usable window, `Io` if there is no room in it.
    pub fn hostvis_map_reserve(&mut self, b: BlobView, window: Option<(u64, u64)>) -> (r: Result<
        u64,
        DriverError,
    >)
        requires
            old(self).inv(),
        ensures
            final(self).inv(),
            match r {
                Ok(off) => {
                    &&& window matches Some((base, len)) && base != 0 && off + span_len(
                        b.size as int,
                    ) <= len
                    &&& final(self)@ == (BoState {
                        window: old(self)@.window.insert(off, span_len(b.size as int) as u64),
                        ..old(self)@
                    })
                    &&& !old(self)@.window.contains_key(off)
                    &&& !final(self)@.holds_window(off)
                    &&& is_free(old(self)@.window, off as int, span_len(b.size as int))
                    &&& forall|x: int|
                        0 <= x < off ==> !(#[trigger] is_free(
                            old(self)@.window,
                            x,
                            span_len(b.size as int),
                        ))
                },
                Err(_) => final(self)@ == old(self)@,
            },
            r is Err && r->Err_0 is Unsupported <==> !(window matches Some((base, len)) && base != 0
                && len != 0),
            r is Err ==> r->Err_0 is Unsupported || r->Err_0 is Io,
            r is Ok <==> {
                &&& window matches Some((base, len))
                &&& base != 0 && len != 0
                &&& b.size > 0
                &&& old(self)@.window.dom().len() < MAX_HOSTVIS_SPANS
                &&& exists|x: int|
                    0 <= x <= len - span_len(b.size as int) && #[trigger] is_free(
                        old(self)@.window,
                        x,
                        span_len(b.size as int),
                    )
            },
    {
        let ghost before = self@;
        let len = match window {
            Some((base, len)) => {
                if base == 0 || len == 0 {
                    return Err(DriverError::Unsupported);
                }
                len
            },
            None => {
                return Err(DriverError::Unsupported);
            },
        };
        match self.window.hostvis_alloc(b.size, len) {
            Some(off) => {
                proof {
                    assert(self@.objs == before.objs);
                    assert forall|o: u32| #[trigger] self@.objs.contains_key(o)
                        && self@.objs[o].map_phys != 0 implies self@.objs[o].win_off != off by {
                        assert(before.objs.contains_key(o));
                    }
                    assert forall|o: u32| #[trigger] self@.objs.contains_key(o) implies naming(
                        self@.handles,
                        o,
                    ).len() <= self@.objs[o].refs by {
                        assert(before.objs.contains_key(o));
                    }
                }
                Ok(off)
            },
            None => {
                assert(self@ =~= before);
                Err(DriverError::Io)
            },
        }
    }

    /// Second half: the host answered the request to map `b` at `off`, with the
    /// mapping's `map_info` or with a refusal. The placement is recorded on the
    /// object; if the object has gone in the meantime the mapping is to be
    /// undone.
    pub fn hostvis_map_record(
        &mut self,
        b: BlobView,
        window_base: u64,
        off: u64,
        reply: Option<u32>,
    ) -> (r: HostMapping)
        requires
            old(self).window_wf(),
            window_base + off <= u64::MAX,
        ensures
            match (reply, old(self)@.objs.contains_key(b.obj)) {
                (None, _) => {
                    &&& r == HostMapping::Refused
                    &&& final(self)@ == (BoState {
                        window: old(self)@.window.remove(off),
                        ..old(self)@
                    })
                },
                (Some(map_info), true) => {
                    &&& r == HostMapping::Mapped((window_base + off) as u64)
                    &&& final(self)@ == old(self)@.mapped(
                        b.obj,
                        off,
                        (window_base + off) as u64,
                        map_info,
                    )
                },
                (Some(_), false) => {
                    &&& r == HostMapping::RollBack(b.res_handle, off)
                    &&& final(self)@ == old(self)@
                },
            },
            final(self).window_wf(),
            old(self).inv() && !old(self)@.holds_window(off) && (old(self)@.objs.contains_key(b.obj)
                && reply is Some ==> old(self)@.window.contains_key(off) && old(self)@.window[off]
                == span_len(old(self)@.objs[b.obj].size as int)) ==> final(self).inv(),
    {
        let ghost before = self@;
        let map_info = match reply {
            Some(v) => v,
            None => {
                self.hostvis_free(off);
                return HostMapping::Refused;
            },
        };
        let token = window_base + off;
        match lookup(&self.objs, b.obj) {
            Some(o) => {
                store(
                    &mut self.objs,
                    b.obj,
                    BlobObj { win_off: off, map_phys: token, map_info, ..o },
                );
                proof {
                    assert(self@ =~= before.mapped(b.obj, off, token, map_info));
                    if before.wf() && !before.holds_window(off) && before.window.contains_key(off)
                        && before.window[off] == span_len(before.objs[b.obj].size as int) {
                        assert forall|k: u32| #[trigger] self@.objs.contains_key(k) implies naming(
                            self@.handles,
                            k,
                        ).len() <= self@.objs[k].refs by {
                            assert(before.objs.contains_key(k));
                        }
                        assert(self@.wf());
                    }
                }
                HostMapping::Mapped(token)
            },
            None => HostMapping::RollBack(b.res_handle, off),
        }
    }

    /// Gives back the window reservation at `off`.
    pub fn hostvis_free(&mut self, off: u64)
        requires
            old(self).window_wf(),
        ensures
            final(self)@ == (BoState { window: old(self)@.window.remove(off), ..old(self)@ }),
            final(self).window_wf(),
            old(self).inv() && !old(self)@.holds_window(off) ==> final(self).inv(),
    {
        let ghost before = self@;
        self.window.hostvis_free(off);
        proof {
            assert(self@ =~= BoState { window: before.window.remove(off), ..before });
            if before.wf() && !before.holds_window(off) {
                assert forall|k: u32| #[trigger] self@.objs.contains_key(k) implies naming(
                    self@.handles,
                    k,
                ).len() <= self@.objs[k].refs by {
                    assert(before.objs.contains_key(k));
                }
                assert(self@.wf());
            }
        }
    }

    /// The cache type the host asked for of the mapped blob that covers `phys`;
    /// cached if none does.
    pub fn blob_map_cache_type(&self, phys: u64) -> (r: u32)
        ensures
            forall|o: u32| #[trigger]
                self@.objs.contains_key(o) && BoState::covers(self@.objs[o], phys) && (forall|p: u32|
                 #[trigger]
                    self@.objs.contains_key(p) && BoState::covers(self@.objs[p], phys) ==> o <= p)
                    ==> r == self@.objs[o].map_info & VIRTIO_GPU_MAP_CACHE_MASK,
            (forall|o: u32| #[trigger]
                self@.objs.contains_key(o) ==> !BoState::covers(self@.objs[o], phys)) ==> r
                == VIRTIO_GPU_MAP_CACHE_CACHED,
    {
        if phys == 0 {
            return VIRTIO_GPU_MAP_CACHE_CACHED;
        }
        let all = entries_u32(&self.objs);
        let mut i: usize = 0;
        while i < all.len()
            invariant
                i <= all.len(),
                lists_u32(all@, self@.objs),
                forall|k: int| 0 <= k < i ==> !BoState::covers((#[trigger] all@[k]).1, phys),
            decreases all.len() - i,
        {
            let (k, b) = all[i];
            assert(all@[i as int] == (k, b));
            assert(self@.objs.contains_key(all@[i as int].0));
            if b.map_phys != 0 && phys >= b.map_phys && phys - b.map_phys < b.size {
                assert forall|o: u32| #[trigger]
                    self@.objs.contains_key(o) && BoState::covers(self@.objs[o], phys) implies k
                    <= o by {
                    let p = choose|p: int| 0 <= p < all.len() && #[trigger] all@[p] == (o, self@.objs[o]);
                    if p < i {
                        assert(!BoState::covers(all@[p].1, phys));
                    } else if i < p {
                        assert(all@[i as int].0 < all@[p].0);
                    }
                }
                return b.map_info & VIRTIO_GPU_MAP_CACHE_MASK;
            }
            i += 1;
        }
        assert forall|o: u32| #[trigger] self@.objs.contains_key(o) implies !BoState::covers(
            self@.objs[o],
            phys,
        ) by {
            let p = choose|p: int| 0 <= p < all.len() && #[trigger] all@[p] == (o, self@.objs[o]);
            assert(!BoState::covers(all@[p].1, phys));
        }
        VIRTIO_GPU_MAP_CACHE_CACHED
    }

    /// Whether this device handed out a mapping at physical address `phys`.
    pub fn mapping_known(&self, phys: u64) -> (r: bool)
        ensures
            r == self@.handed_out(phys),
    {
        let dumb = entries_u32(&self.dumb);
        let mut i: usize = 0;
        while i < dumb.len()
            invariant
                i <= dumb.len(),
                lists_u32(dumb@, self@.dumb),
                forall|k: int|
                    0 <= k < i ==> !((#[trigger] dumb@[k]).1.handle_live && dumb@[k].1.phys
                        == phys as usize),
            decreases dumb.len() - i,
        {
            let (d, b) = dumb[i];
            assert(dumb@[i as int] == (d, b));
            if b.handle_live && b.phys == phys as usize {
                assert(self@.dumb.contains_key(d));
                return true;
            }
            i += 1;
        }
        let objs = entries_u32(&self.objs);
        let mut j: usize = 0;
        while j < objs.len()
            invariant
                j <= objs.len(),
                lists_u32(objs@, self@.objs),
                forall|k: int|
                    0 <= k < j ==> !(((#[trigger] objs@[k]).1.phys != 0 && objs@[k].1.phys
                        == phys as usize) || BoState::covers(objs@[k].1, phys)),
            decreases objs.len() - j,
        {
            let (o, b) = objs[j];
            assert(objs@[j as int] == (o, b));
            if (b.phys != 0 && b.phys == phys as usize) || (b.map_phys != 0 && phys >= b.map_phys
                && phys - b.map_phys < b.size) {
                assert(self@.objs.contains_key(o));
                return true;
            }
            j += 1;
        }
        proof {
            assert forall|d: u32| #[trigger] self@.dumb.contains_key(d) implies !(
            self@.dumb[d].handle_live && self@.dumb[d].phys == phys as usize) by {
                let p = choose|p: int| 0 <= p < dumb.len() && #[trigger] dumb@[p] == (d, self@.dumb[d]);
                assert(!(dumb@[p].1.handle_live && dumb@[p].1.phys == phys as usize));
            }
            assert forall|o: u32| #[trigger] self@.objs.contains_key(o) implies !((
            self@.objs[o].phys != 0 && self@.objs[o].phys == phys as usize) || BoState::covers(
                self@.objs[o],
                phys,
            )) by {
                let p = choose|p: int| 0 <= p < objs.len() && #[trigger] objs@[p] == (o, self@.objs[o]);
                assert(!((objs@[p].1.phys != 0 && objs@[p].1.phys == phys as usize)
                    || BoState::covers(objs@[p].1, phys)));
            }
        }
        false
    }
}

/// How an attempt to map a host blob ended.
#[derive(Debug, Clone, Copy, PartialEq, Eq, Structural)]
pub enum HostMapping {
    /// Mapped; this is the address.
    Mapped(u64),
    /// The host refused, and the reservation was given back.
    Refused,
    /// The object has gone: unmap this resource, and give back this reservation
    /// afterwards.
    RollBack(u32, u64),
}

/// `hs` lists the handles of `set`, each once, by ascending handle.
pub open spec fn listing(hs: Seq<u32>, set: Set<u32>) -> bool {
    &&& hs.to_set() == set
    &&& forall|i: int, j: int| 0 <= i < j < hs.len() ==> hs[i] < hs[j]
}

/// What dropping blob handles `hs` one after the other asks for.
pub open spec fn teardowns(s: BoState, hs: Seq<u32>) -> Seq<BoTeardown>
    decreases hs.len(),
{
    if hs.len() == 0 {
        Seq::empty()
    } else {
        let before = s.drop_handles(hs.drop_last());
        match before.handle_teardown(hs.last()) {
            Some(t) => teardowns(s, hs.drop_last()).push(t),
            None => teardowns(s, hs.drop_last()),
        }
    }
}

/// How the release of an export ended.
#[derive(Debug, Clone, Copy, PartialEq, Eq)]
pub enum ExportRelease {
    /// Identity 0 names nothing.
    Ignored,
    /// A reference was dropped; the record says what that asks for, if anything.
    Released(Option<BoTeardown>),
    /// The identity is not in the registry: it was released twice or made up.
    Underflow,
}

} // verus!
