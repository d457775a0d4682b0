//! The virtio-gpu 3D requests: what each is refused for, what it asks of the
//! device, and what it leaves behind.
//!
//! The device itself is reached from outside. A request is checked here first;
//! the reply of the device comes back as an argument of the second half.
use crate::bo::{
    listing, teardowns, BlobView, BoRegistry, BoState, BoTeardown, NewBlob, MAX_BLOB_BYTES, VIRTIO_GPU_BLOB_MEM_GUEST,
    VIRTIO_GPU_BLOB_MEM_HOST3D, VIRTIO_GPU_BLOB_MEM_HOST3D_GUEST,
};
use crate::gpu_ctx::{entry, has_room, BindError, GpuContexts, GpuCtx};
use crate::notes::{NoteSet, MAX_NOTED};
use crate::pages::{is_order_for, order_for_bytes, pages_for};
use crate::DriverError;
use vstd::prelude::*;

verus! {

pub const VIRTGPU_EXECBUF_FENCE_FD_IN: u32 = 0x01;

pub const VIRTGPU_EXECBUF_FENCE_FD_OUT: u32 = 0x02;

pub const VIRTGPU_EXECBUF_RING_IDX: u32 = 0x04;

/// Every submission flag this driver knows.
pub const VIRTGPU_EXECBUF_FLAGS_KNOWN: u32 = 0x07;

/// The longest command stream that is accepted: 4 MiB.
pub const MAX_CMD_BYTES: u32 = 4194304;

/// The most buffers a submission can name.
pub const MAX_BO_HANDLES: u32 = 1024;

/// A submission request.
#[derive(Debug, Clone, Copy, PartialEq, Eq, Structural)]
pub struct Execbuffer {
    pub flags: u32,
    pub size: u32,
    /// Address of the command stream.
    pub command: u64,
    /// Address of the array of buffer handles.
    pub bo_handles: u64,
    pub num_bo_handles: u32,
    pub fence_fd: i32,
    pub ring_idx: u32,
    pub syncobj_stride: u32,
    pub num_in_syncobjs: u32,
    pub num_out_syncobjs: u32,
    pub in_syncobjs: u64,
    pub out_syncobjs: u64,
}

impl Execbuffer {
    /// No command stream: the request only asks for a fence over everything
    /// submitted so far.
    pub open spec fn is_fence_only(self) -> bool {
        self.command == 0 && self.size == 0
    }

    /// The caller chose a ring.
    pub open spec fn picks_ring(self) -> bool {
        self.flags & VIRTGPU_EXECBUF_RING_IDX != 0
    }

    /// A fence file is asked for in a direction that is not acted on.
    pub open spec fn ignores_fence_fd(self) -> bool {
        self.flags & VIRTGPU_EXECBUF_FENCE_FD_IN != 0 || (self.flags & VIRTGPU_EXECBUF_FENCE_FD_OUT
            == 0 && self.fence_fd != 0)
    }

    /// Sync objects are named, which are not acted on.
    pub open spec fn ignores_syncobj(self) -> bool {
        self.num_in_syncobjs != 0 || self.num_out_syncobjs != 0 || self.in_syncobjs != 0
            || self.out_syncobjs != 0
    }

    /// Something is asked for that is not acted on.
    pub open spec fn diverges(self) -> bool {
        self.ignores_fence_fd() || self.ignores_syncobj() || self.flags
            & !VIRTGPU_EXECBUF_FLAGS_KNOWN != 0
    }

    /// What distinguishes one divergence from another: the flag bits, and which
    /// fields are ignored.
    pub open spec fn shape(self) -> int {
        self.flags + (if self.ignores_fence_fd() {
            0x1_0000_0000int
        } else {
            0
        }) + (if self.ignores_syncobj() {
            0x2_0000_0000int
        } else {
            0
        })
    }
}

/// Where a submission runs, and how many buffers it names.
#[derive(Debug, Clone, Copy, PartialEq, Eq, Structural)]
pub struct ExecTarget {
    pub ctx: u32,
    pub ring_idx: Option<u8>,
    pub num_handles: u32,
}

/// The command stream and its length are given both or neither, and the length
/// is within bounds.
pub open spec fn stream_ok(e: Execbuffer) -> bool {
    &&& e.command == 0 <==> e.size == 0
    &&& e.size <= MAX_CMD_BYTES
}

/// The open that `c` belongs to has a context, and the ring the caller chose is
/// one of its rings.
pub open spec fn ring_ok(e: Execbuffer, c: Option<GpuCtx>) -> bool {
    c matches Some(c) && c.ctx_id != 0 && (e.picks_ring() ==> e.ring_idx < c.num_rings)
}

/// The handle array is there if it is to be read, and not too long.
pub open spec fn array_ok(e: Execbuffer) -> bool {
    e.num_bo_handles != 0 ==> e.bo_handles != 0 && e.num_bo_handles <= MAX_BO_HANDLES
}

/// First half of a submission: everything that is checked before the handle
/// array is read.
pub fn execbuffer_check(e: &Execbuffer, ctxs: &GpuContexts, open_id: u32) -> (r: Result<
    ExecTarget,
    DriverError,
>)
    requires
        ctxs.wf(),
    ensures
        r is Ok <==> stream_ok(*e) && ring_ok(*e, entry(ctxs@, open_id)) && array_ok(*e),
        match r {
            Ok(t) => t == (ExecTarget {
                ctx: entry(ctxs@, open_id)->Some_0.ctx_id,
                ring_idx: if e.picks_ring() {
                    Some(e.ring_idx as u8)
                } else {
                    None
                },
                num_handles: e.num_bo_handles,
            }),
            Err(err) => err == DriverError::InvalidParameter,
        },
{
    let fence_only = e.command == 0 && e.size == 0;
    if !fence_only && (e.command == 0 || e.size == 0) {
        return Err(DriverError::InvalidParameter);
    }
    if e.size > MAX_CMD_BYTES {
        return Err(DriverError::InvalidParameter);
    }
    let c = match ctxs.ctx_lookup_entry(open_id) {
        Some(c) => c,
        None => {
            return Err(DriverError::InvalidParameter);
        },
    };
    if c.ctx_id == 0 {
        return Err(DriverError::InvalidParameter);
    }
    let ring_idx = if e.flags & VIRTGPU_EXECBUF_RING_IDX != 0 {
        if e.ring_idx >= c.num_rings {
            return Err(DriverError::InvalidParameter);
        }
        Some(e.ring_idx as u8)
    } else {
        None
    };
    if e.num_bo_handles != 0 && (e.bo_handles == 0 || e.num_bo_handles > MAX_BO_HANDLES) {
        return Err(DriverError::InvalidParameter);
    }
    Ok(ExecTarget { ctx: c.ctx_id, ring_idx, num_handles: e.num_bo_handles })
}

/// What becomes of a submission that passed every check.
#[derive(Debug, Clone, Copy, PartialEq, Eq, Structural)]
pub enum ExecAction {
    /// Nothing is submitted: all earlier work has retired.
    Done,
    /// The stream is to be submitted to this context and ring.
    Submit(u32, Option<u8>),
}

/// Every handle names a buffer that `open_id` may reach.
pub open spec fn all_named(s: BoState, handles: Seq<u32>, open_id: u32) -> bool {
    forall|i: int| 0 <= i < handles.len() ==> s.names_bo(#[trigger] handles[i], open_id)
}

/// Whether every handle names a buffer that `open_id` may reach.
fn resolve_handles(handles: &Vec<u32>, bos: &BoRegistry, open_id: u32) -> (r: bool)
    ensures
        r == all_named(bos@, handles@, open_id),
{
    let mut i: usize = 0;
    while i < handles.len()
        invariant
            i <= handles.len(),
            forall|k: int| 0 <= k < i ==> bos@.names_bo(#[trigger] handles@[k], open_id),
        decreases handles.len() - i,
    {
        if !bos.bo_exists(handles[i], open_id) {
            assert(!bos@.names_bo(handles@[i as int], open_id));
            return false;
        }
        i += 1;
    }
    true
}

/// Second half of a submission, with the handle array: every handle must name a
/// buffer before the device is touched. The action says whether there is
/// anything to submit, and the flag whether an unhonoured field is to be
/// reported, which happens once per shape.
pub fn virtgpu_handle_execbuffer(
    e: &Execbuffer,
    handles: &Vec<u32>,
    bos: &BoRegistry,
    ctxs: &GpuContexts,
    notes: &mut NoteSet,
    open_id: u32,
) -> (r: Result<(ExecAction, bool), DriverError>)
    requires
        ctxs.wf(),
        old(notes).wf(),
    ensures
        final(notes).wf(),
        ({
            let checked = stream_ok(*e) && ring_ok(*e, entry(ctxs@, open_id)) && array_ok(*e);
            &&& r is Ok <==> checked && all_named(bos@, handles@, open_id)
            &&& r is Err ==> {
                &&& final(notes)@ == old(notes)@
                &&& r->Err_0 == (if checked {
                    DriverError::NotFound
                } else {
                    DriverError::InvalidParameter
                })
            }
        }),
        r matches Ok((action, report)) ==> {
            &&& action == (if e.is_fence_only() {
                ExecAction::Done
            } else {
                ExecAction::Submit(
                    entry(ctxs@, open_id)->Some_0.ctx_id,
                    if e.picks_ring() {
                        Some(e.ring_idx as u8)
                    } else {
                        None
                    },
                )
            })
            &&& report == (e.diverges() && !old(notes)@.contains(e.shape() as u64))
            &&& final(notes)@ == (if report && old(notes)@.len() < MAX_NOTED {
                old(notes)@.push(e.shape() as u64)
            } else {
                old(notes)@
            })
        },
{
    let t = match execbuffer_check(e, ctxs, open_id) {
        Ok(t) => t,
        Err(err) => {
            return Err(err);
        },
    };
    if !resolve_handles(handles, bos, open_id) {
        return Err(DriverError::NotFound);
    }
    let unknown_flags: u32 = e.flags & !VIRTGPU_EXECBUF_FLAGS_KNOWN;
    let ignored_fence_fd = e.flags & VIRTGPU_EXECBUF_FENCE_FD_IN != 0 || (e.flags
        & VIRTGPU_EXECBUF_FENCE_FD_OUT == 0 && e.fence_fd != 0);
    let ignored_syncobj = e.num_in_syncobjs != 0 || e.num_out_syncobjs != 0 || e.in_syncobjs != 0
        || e.out_syncobjs != 0;
    let report = if ignored_fence_fd || ignored_syncobj || unknown_flags != 0 {
        let fence_bit: u64 = if ignored_fence_fd {
            0x1_0000_0000
        } else {
            0
        };
        let sync_bit: u64 = if ignored_syncobj {
            0x2_0000_0000
        } else {
            0
        };
        notes.first(e.flags as u64 + fence_bit + sync_bit)
    } else {
        false
    };
    if e.command == 0 && e.size == 0 {
        return Ok((ExecAction::Done, report));
    }
    Ok((ExecAction::Submit(t.ctx, t.ring_idx), report))
}

/// Last half of a submission: the device took it and answered with `fence`. The
/// fence goes to every buffer the submission named and to the open.
pub fn execbuffer_complete(
    bos: &mut BoRegistry,
    ctxs: &mut GpuContexts,
    handles: &Vec<u32>,
    open_id: u32,
    fence: u64,
)
    requires
        old(ctxs).wf(),
    ensures
        final(bos)@ == old(bos)@.attach_all(handles@, open_id, fence),
        old(bos).inv() ==> final(bos).inv(),
        final(ctxs).wf(),
        entry(final(ctxs)@, open_id) == (match entry(old(ctxs)@, open_id) {
            Some(c) => Some(GpuCtx { last_fence: fence, ..c }),
            None => None,
        }),
        forall|other: u32|
            other != open_id ==> #[trigger] entry(final(ctxs)@, other) == entry(
                old(ctxs)@,
                other,
            ),
{
    let ghost start = bos@;
    let ghost start_inv = bos.inv();
    let mut i: usize = 0;
    assert(handles@.take(0) =~= Seq::<u32>::empty());
    while i < handles.len()
        invariant
            i <= handles.len(),
            bos@ == start.attach_all(handles@.take(i as int), open_id, fence),
            start_inv ==> bos.inv(),
        decreases handles.len() - i,
    {
        let _ = bos.bo_attach_fence(handles[i], open_id, fence);
        assert(handles@.take(i + 1).drop_last() =~= handles@.take(i as int));
        i += 1;
    }
    assert(handles@.take(handles.len() as int) =~= handles@);
    ctxs.ctx_record_fence(open_id, fence);
}

/// Two submissions that diverge in different ways have different shapes.
pub proof fn lemma_shapes_tell_divergences_apart(a: Execbuffer, b: Execbuffer)
    ensures
        0 <= a.shape() <= u64::MAX,
        a.shape() == b.shape() ==> a.flags == b.flags && a.ignores_fence_fd()
            == b.ignores_fence_fd() && a.ignores_syncobj() == b.ignores_syncobj(),
{
}

// Context creation.

pub const VIRTGPU_CONTEXT_PARAM_CAPSET_ID: u64 = 0x0001;

pub const VIRTGPU_CONTEXT_PARAM_NUM_RINGS: u64 = 0x0002;

pub const VIRTGPU_CONTEXT_PARAM_POLL_RINGS_MASK: u64 = 0x0003;

pub const VIRTGPU_CONTEXT_PARAM_DEBUG_NAME: u64 = 0x0004;

/// The most rings a context can have.
pub const MAX_RINGS: u64 = 64;

/// One parameter of a context that is to be created.
#[derive(Debug, Clone, Copy, PartialEq, Eq, Structural)]
pub struct ContextParam {
    pub param: u64,
    pub value: u64,
}

/// A parameter that is understood, with a value in range.
pub open spec fn param_ok(p: ContextParam) -> bool {
    ||| p.param == VIRTGPU_CONTEXT_PARAM_CAPSET_ID
    ||| p.param == VIRTGPU_CONTEXT_PARAM_NUM_RINGS && p.value <= MAX_RINGS
    ||| p.param == VIRTGPU_CONTEXT_PARAM_POLL_RINGS_MASK
    ||| p.param == VIRTGPU_CONTEXT_PARAM_DEBUG_NAME
}

/// The capability set that `params` ask for: the last one given, else 0.
pub open spec fn capset_of(params: Seq<ContextParam>) -> u32
    decreases params.len(),
{
    if params.len() == 0 {
        0
    } else if params.last().param == VIRTGPU_CONTEXT_PARAM_CAPSET_ID {
        params.last().value as u32
    } else {
        capset_of(params.drop_last())
    }
}

/// The number of rings that `params` ask for: the last one given but at least
/// 1, else 1.
pub open spec fn rings_of(params: Seq<ContextParam>) -> u32
    decreases params.len(),
{
    if params.len() == 0 {
        1
    } else if params.last().param == VIRTGPU_CONTEXT_PARAM_NUM_RINGS {
        if params.last().value == 0 {
            1
        } else {
            params.last().value as u32
        }
    } else {
        rings_of(params.drop_last())
    }
}

/// Every parameter is understood and a capability set is named.
pub open spec fn params_ok(params: Seq<ContextParam>) -> bool {
    &&& forall|i: int| 0 <= i < params.len() ==> param_ok(#[trigger] params[i])
    &&& capset_of(params) != 0
}

/// Reads the parameters of a new context: capability set and number of rings.
pub fn context_params(params: &Vec<ContextParam>) -> (r: Result<(u32, u32), DriverError>)
    ensures
        r == (if params_ok(params@) {
            Ok((capset_of(params@), rings_of(params@)))
        } else {
            Err(DriverError::InvalidParameter)
        }),
        r is Ok ==> 1 <= rings_of(params@) <= MAX_RINGS,
{
    let mut capset: u32 = 0;
    let mut rings: u32 = 1;
    let mut i: usize = 0;
    assert(params@.take(0) =~= Seq::<ContextParam>::empty());
    while i < params.len()
        invariant
            i <= params.len(),
            capset == capset_of(params@.take(i as int)),
            rings == rings_of(params@.take(i as int)),
            1 <= rings <= MAX_RINGS,
            forall|k: int| 0 <= k < i ==> param_ok(#[trigger] params@[k]),
        decreases params.len() - i,
    {
        let p = params[i];
        assert(params@.take(i + 1).drop_last() =~= params@.take(i as int));
        assert(params@.take(i + 1).last() == p);
        if p.param == VIRTGPU_CONTEXT_PARAM_CAPSET_ID {
            capset = p.value as u32;
        } else if p.param == VIRTGPU_CONTEXT_PARAM_NUM_RINGS {
            if p.value > MAX_RINGS {
                assert(!param_ok(params@[i as int]));
                return Err(DriverError::InvalidParameter);
            }
            rings = if p.value == 0 {
                1
            } else {
                p.value as u32
            };
        } else if p.param != VIRTGPU_CONTEXT_PARAM_POLL_RINGS_MASK && p.param
            != VIRTGPU_CONTEXT_PARAM_DEBUG_NAME {
            assert(!param_ok(params@[i as int]));
            return Err(DriverError::InvalidParameter);
        }
        i += 1;
    }
    assert(params@.take(params.len() as int) =~= params@);
    if capset == 0 {
        return Err(DriverError::InvalidParameter);
    }
    Ok((capset, rings))
}

/// Whether the parameter array of a context request can be read.
pub fn context_array_ok(num_params: u32, ctx_set_params: u64) -> (r: bool)
    ensures
        r == (ctx_set_params != 0 && 1 <= num_params <= 8),
{
    !(ctx_set_params == 0 || num_params == 0 || num_params > 8)
}

/// What a context request asks of the device.
#[derive(Debug, Clone, Copy, PartialEq, Eq, Structural)]
pub enum ContextAction {
    /// The open has this context already.
    Done,
    /// A context is to be created: capability set and number of rings.
    Create(u32, u32),
}

/// First half of a context request. An open that has a context keeps it if it
/// asks for the same capability set, and is refused if it asks for another.
pub fn virtgpu_handle_context_init(
    params: &Vec<ContextParam>,
    ctxs: &GpuContexts,
    open_id: u32,
) -> (r: Result<ContextAction, DriverError>)
    requires
        ctxs.wf(),
    ensures
        r == (if !params_ok(params@) {
            Err(DriverError::InvalidParameter)
        } else {
            match entry(ctxs@, open_id) {
                Some(c) => if c.capset == capset_of(params@) {
                    Ok(ContextAction::Done)
                } else {
                    Err(DriverError::InvalidParameter)
                },
                None => Ok(ContextAction::Create(capset_of(params@), rings_of(params@))),
            }
        }),
{
    let (capset, rings) = match context_params(params) {
        Ok(v) => v,
        Err(e) => {
            return Err(e);
        },
    };
    match ctxs.ctx_lookup_entry(open_id) {
        Some(c) => if c.capset == capset {
            Ok(ContextAction::Done)
        } else {
            Err(DriverError::InvalidParameter)
        },
        None => Ok(ContextAction::Create(capset, rings)),
    }
}

/// How a context request ended.
#[derive(Debug, Clone, Copy, PartialEq, Eq)]
pub struct ContextOutcome {
    pub result: Result<(), DriverError>,
    /// The context that nothing may reach and that is to be destroyed.
    pub destroy: Option<u32>,
}

/// Second half of a context request: the device created context `ctx`. It is
/// bound to the open; if another request of the same open came first, that one
/// stands and this context goes.
pub fn context_init_bind(
    ctxs: &mut GpuContexts,
    open_id: u32,
    ctx: u32,
    capset: u32,
    rings: u32,
) -> (r: ContextOutcome)
    requires
        old(ctxs).wf(),
    ensures
        final(ctxs).wf(),
        r == (match entry(old(ctxs)@, open_id) {
            Some(c) => ContextOutcome {
                result: if c.ctx_id != 0 {
                    Ok(())
                } else {
                    Err(DriverError::Io)
                },
                destroy: Some(ctx),
            },
            None => if open_id != 0 && has_room(old(ctxs)@) {
                ContextOutcome { result: Ok(()), destroy: None }
            } else {
                ContextOutcome { result: Err(DriverError::Io), destroy: Some(ctx) }
            },
        }),
        r.destroy is Some ==> final(ctxs)@ == old(ctxs)@,
        r.destroy is None ==> entry(final(ctxs)@, open_id) == Some(
            GpuCtx {
                open_id,
                ctx_id: ctx,
                capset,
                num_rings: if rings == 0 {
                    1
                } else {
                    rings
                },
                last_fence: 0,
            },
        ),
        forall|other: u32|
            other != open_id ==> #[trigger] entry(final(ctxs)@, other) == entry(
                old(ctxs)@,
                other,
            ),
{
    match ctxs.ctx_bind(open_id, ctx, capset, rings) {
        Ok(()) => ContextOutcome { result: Ok(()), destroy: None },
        Err(BindError::Taken(winner)) => ContextOutcome {
            result: if winner != 0 {
                Ok(())
            } else {
                Err(DriverError::Io)
            },
            destroy: Some(ctx),
        },
        Err(BindError::NoSlot) => ContextOutcome {
            result: Err(DriverError::Io),
            destroy: Some(ctx),
        },
    }
}

// Blob creation.

/// A request to create a blob.
#[derive(Debug, Clone, Copy, PartialEq, Eq, Structural)]
pub struct CreateBlob {
    pub blob_mem: u32,
    pub blob_flags: u32,
    pub size: u64,
    pub blob_id: u64,
}

/// Guest pages are to be behind the blob.
pub open spec fn guest_backed(blob_mem: u32) -> bool {
    blob_mem == VIRTIO_GPU_BLOB_MEM_GUEST || blob_mem == VIRTIO_GPU_BLOB_MEM_HOST3D_GUEST
}

/// The request is for a blob of some kind and of a permitted size.
pub open spec fn create_ok(req: CreateBlob) -> bool {
    0 < req.size <= MAX_BLOB_BYTES && req.blob_mem != 0
}

/// What a blob is to be created with.
#[derive(Debug, Clone, Copy, PartialEq, Eq, Structural)]
pub struct BlobPlan {
    /// Pages of this order are to be allocated and zeroed for it.
    pub guest_backed: bool,
    pub order: usize,
    /// The context the resource is created in and attached to, 0 for none.
    pub ctx: u32,
}

/// First half of a blob request.
pub fn virtgpu_handle_resource_create_blob(
    req: &CreateBlob,
    ctxs: &GpuContexts,
    open_id: u32,
) -> (r: Result<BlobPlan, DriverError>)
    requires
        ctxs.wf(),
    ensures
        r is Ok <==> create_ok(*req),
        match r {
            Ok(plan) => {
                &&& plan.guest_backed == guest_backed(req.blob_mem)
                &&& is_order_for(pages_for(req.size as int), plan.order as int)
                &&& plan.ctx == (match entry(ctxs@, open_id) {
                    Some(c) => c.ctx_id,
                    None => 0,
                })
            },
            Err(e) => e == DriverError::InvalidParameter,
        },
{
    if req.size == 0 || req.size > MAX_BLOB_BYTES || req.blob_mem == 0 {
        return Err(DriverError::InvalidParameter);
    }
    Ok(
        BlobPlan {
            guest_backed: req.blob_mem == VIRTIO_GPU_BLOB_MEM_GUEST || req.blob_mem
                == VIRTIO_GPU_BLOB_MEM_HOST3D_GUEST,
            order: order_for_bytes(req.size),
            ctx: ctxs.ctx_lookup(open_id),
        },
    )
}

/// What the device said to a request to create a blob.
#[derive(Debug, Clone, Copy, PartialEq, Eq, Structural)]
pub enum BlobReply {
    /// There is no device.
    NoDevice,
    /// The device refused.
    Refused,
    /// The resource has this id.
    Created(u32),
}

/// How a blob request ended.
#[derive(Debug, Clone, Copy, PartialEq, Eq)]
pub struct BlobOutcome {
    /// The gem handle and the resource id.
    pub result: Result<(u32, u32), DriverError>,
    /// Pages to give back: base and order.
    pub free: Option<(usize, usize)>,
}

/// Second half of a blob request, with the base of the allocated pages (0 if
/// none were to be) and the reply of the device. On failure the pages go back;
/// on success the blob belongs to the open that asked.
pub fn resource_create_blob_finish(
    bos: &mut BoRegistry,
    req: &CreateBlob,
    plan: &BlobPlan,
    phys: usize,
    reply: BlobReply,
    open_id: u32,
) -> (r: BlobOutcome)
    ensures
        match reply {
            BlobReply::Created(res) => {
                &&& r == (BlobOutcome {
                    result: Ok((old(bos)@.next_blob_handle, res)),
                    free: None,
                })
                &&& final(bos)@ == old(bos)@.add_blob(
                    (NewBlob {
                        phys,
                        order: plan.order,
                        res_handle: res,
                        size: req.size,
                        blob_mem: req.blob_mem,
                    }),
                    open_id,
                    plan.ctx,
                )
            },
            _ => {
                &&& final(bos)@ == old(bos)@
                &&& r.result == Err::<(u32, u32), DriverError>(
                    if reply is NoDevice {
                        DriverError::NotFound
                    } else {
                        DriverError::Io
                    },
                )
                &&& r.free == (if phys != 0 {
                    Some((phys, plan.order))
                } else {
                    None
                })
            },
        },
        old(bos).inv() && create_ok(*req) && 0 < old(bos)@.next_obj < u32::MAX && old(
            bos,
        )@.next_blob_handle < u32::MAX ==> final(bos).inv(),
{
    let free = if phys != 0 {
        Some((phys, plan.order))
    } else {
        None
    };
    match reply {
        BlobReply::NoDevice => BlobOutcome { result: Err(DriverError::NotFound), free },
        BlobReply::Refused => BlobOutcome { result: Err(DriverError::Io), free },
        BlobReply::Created(res) => {
            let handle = bos.add_blob(
                NewBlob {
                    phys,
                    order: plan.order,
                    res_handle: res,
                    size: req.size,
                    blob_mem: req.blob_mem,
                },
                open_id,
                plan.ctx,
            );
            BlobOutcome { result: Ok((handle, res)), free: None }
        },
    }
}

// Mapping, description and waiting.

/// What the mapping offset of a buffer is.
#[derive(Debug, Clone, Copy, PartialEq, Eq, Structural)]
pub enum MapAction {
    /// It is this address.
    Token(u64),
    /// The blob is to be mapped into the host-visible window first.
    MapHost(BlobView),
}

/// Turns a handle into the mapping offset of its buffer: a host blob is at its
/// place in the window, anything else at its pages.
pub fn virtgpu_handle_map(bos: &BoRegistry, handle: u32, open_id: u32) -> (r: Result<
    MapAction,
    DriverError,
>)
    ensures
        r == (match bos@.blob_of(handle, open_id) {
            Some(b) => if b.blob_mem == VIRTIO_GPU_BLOB_MEM_HOST3D {
                if b.map_phys != 0 {
                    Ok(MapAction::Token(b.map_phys))
                } else {
                    Ok(MapAction::MapHost(b))
                }
            } else if b.phys != 0 {
                Ok(MapAction::Token(b.phys as u64))
            } else {
                Err(DriverError::Unsupported)
            },
            None => match bos@.dumb_of(handle) {
                Some(b) => if b.phys != 0 {
                    Ok(MapAction::Token(b.phys as u64))
                } else {
                    Err(DriverError::Unsupported)
                },
                None => Err(DriverError::InvalidParameter),
            },
        }),
{
    match bos.blob_lookup(handle, open_id) {
        Some(b) => if b.blob_mem == VIRTIO_GPU_BLOB_MEM_HOST3D {
            if b.map_phys != 0 {
                Ok(MapAction::Token(b.map_phys))
            } else {
                Ok(MapAction::MapHost(b))
            }
        } else if b.phys != 0 {
            Ok(MapAction::Token(b.phys as u64))
        } else {
            Err(DriverError::Unsupported)
        },
        None => match bos.dumb_lookup(handle) {
            Some(b) => if b.phys != 0 {
                Ok(MapAction::Token(b.phys as u64))
            } else {
                Err(DriverError::Unsupported)
            },
            None => Err(DriverError::InvalidParameter),
        },
    }
}

/// What is known of a blob.
#[derive(Debug, Clone, Copy, PartialEq, Eq, Structural)]
pub struct ResourceInfo {
    pub res_handle: u32,
    /// Bytes, rounded up to whole pages.
    pub size: u32,
    pub blob_mem: u32,
}

/// Describes the blob that `bo_handle` names.
pub fn virtgpu_handle_resource_info(bos: &BoRegistry, bo_handle: u32, open_id: u32) -> (r: Result<
    ResourceInfo,
    DriverError,
>)
    requires
        bos.inv(),
    ensures
        match bos@.blob_of(bo_handle, open_id) {
            Some(b) => {
                &&& r matches Ok(info)
                &&& info.res_handle == b.res_handle
                &&& info.size == pages_for(b.size as int) * 4096
                &&& info.blob_mem == b.blob_mem
            },
            None => r == Err::<ResourceInfo, DriverError>(DriverError::NotFound),
        },
{
    match bos.blob_lookup(bo_handle, open_id) {
        Some(b) => {
            assert(bos@.objs.contains_key(b.obj));
            Ok(
                ResourceInfo {
                    res_handle: b.res_handle,
                    size: ((b.size + 0xfff) / 4096 * 4096) as u32,
                    blob_mem: b.blob_mem,
                },
            )
        },
        None => Err(DriverError::NotFound),
    }
}

/// First half of a wait: the fence to ask the device about, 0 if nothing was
/// ever submitted against the buffer.
pub fn virtgpu_handle_wait(bos: &BoRegistry, handle: u32, open_id: u32) -> (r: Result<
    u64,
    DriverError,
>)
    ensures
        r == (if handle == 0 {
            Err(DriverError::InvalidParameter)
        } else {
            match bos@.fence_of(handle, open_id) {
                Some(f) => Ok(f),
                None => Err(DriverError::NotFound),
            }
        }),
{
    if handle == 0 {
        return Err(DriverError::InvalidParameter);
    }
    match bos.bo_fence(handle, open_id) {
        Some(f) => Ok(f),
        None => Err(DriverError::NotFound),
    }
}

/// Second half of a wait: whether the fence has retired, `None` if there is no
/// device. Fence 0 needs no device.
pub fn wait_result(fence: u64, retired: Option<bool>) -> (r: Result<(), DriverError>)
    ensures
        r == (if fence == 0 {
            Ok(())
        } else {
            match retired {
                Some(true) => Ok(()),
                Some(false) => Err(DriverError::Io),
                None => Err(DriverError::NotFound),
            }
        }),
{
    if fence == 0 {
        return Ok(());
    }
    match retired {
        Some(done) => if done {
            Ok(())
        } else {
            Err(DriverError::Io)
        },
        None => Err(DriverError::NotFound),
    }
}

// Device parameters.

pub const VIRTGPU_PARAM_3D_FEATURES: u64 = 1;

pub const VIRTGPU_PARAM_CAPSET_QUERY_FIX: u64 = 2;

pub const VIRTGPU_PARAM_RESOURCE_BLOB: u64 = 3;

pub const VIRTGPU_PARAM_HOST_VISIBLE: u64 = 4;

pub const VIRTGPU_PARAM_CROSS_DEVICE: u64 = 5;

pub const VIRTGPU_PARAM_CONTEXT_INIT: u64 = 6;

pub const VIRTGPU_PARAM_SUPPORTED_CAPSET_IDS: u64 = 7;

pub const VIRTGPU_PARAM_EXPLICIT_DEBUG_NAME: u64 = 8;

/// The id of the calling open's context, 0 if it has none.
pub const VIRTGPU_PARAM_LEANDROS_CTX_ID: u64 = 0x1000_0001;

/// How many window reservations are live.
pub const VIRTGPU_PARAM_LEANDROS_HOSTVIS_SPANS: u64 = 0x1000_0002;

/// The length of the host-visible window in MiB, 0 if there is none.
pub const VIRTGPU_PARAM_LEANDROS_HOSTVIS_MIB: u64 = 0x1000_0003;

/// The low half of the calling open's last fence.
pub const VIRTGPU_PARAM_LEANDROS_LAST_FENCE: u64 = 0x1000_0004;

/// How many blob objects are live.
pub const VIRTGPU_PARAM_LEANDROS_BLOB_OBJS: u64 = 0x1000_0005;

/// What was negotiated with the device.
#[derive(Debug)]
pub struct GpuInfo {
    pub virgl: bool,
    pub resource_blob: bool,
    pub context_init: bool,
    /// The length of the host-visible window, if there is one.
    pub window_len: Option<u64>,
    /// For each capability set slot the id in it, if the device named one.
    pub capset_ids: Vec<Option<u32>>,
}

/// Bit `b` of `mask` is set.
pub open spec fn bit_set(mask: u64, b: u64) -> bool {
    (mask >> b) & 1 == 1
}

/// `mask` has exactly the bits of the ids below 64 in the first 16 slots.
pub open spec fn is_capset_mask(ids: Seq<Option<u32>>, mask: u64) -> bool {
    forall|b: u64| #![trigger bit_set(mask, b)]
        b < 64 ==> (bit_set(mask, b) <==> exists|i: int|
            0 <= i < ids.len() && i < 16 && #[trigger] ids[i] == Some(b as u32))
}

/// One bit more.
proof fn lemma_set_bit(mask: u64, id: u64)
    requires
        id < 64,
    ensures
        forall|b: u64| b < 64 ==> (#[trigger] bit_set(mask | (1u64 << id), b) <==> bit_set(mask, b)
            || b == id),
{
    assert forall|b: u64| b < 64 implies (#[trigger] bit_set(mask | (1u64 << id), b) <==> bit_set(
        mask,
        b,
    ) || b == id) by {
        assert((((mask | (1u64 << id)) >> b) & 1 == 1) <==> ((mask >> b) & 1 == 1) || b == id)
            by (bit_vector)
            requires
                b < 64,
                id < 64,
        ;
    }
}

/// The set of capability set ids, as bits. Ids of 64 and more have no bit, and
/// only the first 16 slots count.
pub fn capset_mask(ids: &Vec<Option<u32>>) -> (mask: u64)
    ensures
        is_capset_mask(ids@, mask),
{
    let mut mask: u64 = 0;
    let mut i: usize = 0;
    assert forall|b: u64| b < 64 implies !(#[trigger] bit_set(0, b)) by {
        assert((0u64 >> b) & 1 == 0) by (bit_vector);
    }
    while i < ids.len() && i < 16
        invariant
            i <= ids.len(),
            i <= 16,
            forall|b: u64| #![trigger bit_set(mask, b)]
                b < 64 ==> (bit_set(mask, b) <==> exists|k: int|
                    0 <= k < i && #[trigger] ids@[k] == Some(b as u32)),
        decreases ids.len() - i,
    {
        let ghost was = mask;
        match ids[i] {
            Some(id) => {
                if id < 64 {
                    proof {
                        lemma_set_bit(mask, id as u64);
                    }
                    mask = mask | (1u64 << (id as u64));
                }
            },
            None => {},
        }
        proof {
            assert forall|b: u64| #![trigger bit_set(mask, b)] b < 64 implies (bit_set(mask, b)
                <==> exists|k: int| 0 <= k < i + 1 && #[trigger] ids@[k] == Some(b as u32)) by {
                assert(bit_set(was, b) <==> exists|k: int|
                    0 <= k < i && #[trigger] ids@[k] == Some(b as u32));
                if bit_set(mask, b) && !bit_set(was, b) {
                    assert(ids@[i as int] == Some(b as u32));
                }
                if exists|k: int| 0 <= k < i + 1 && #[trigger] ids@[k] == Some(b as u32) {
                    let k = choose|k: int| 0 <= k < i + 1 && #[trigger] ids@[k] == Some(b as u32);
                    if k < i {
                        assert(bit_set(was, b));
                    }
                }
            }
        }
        i += 1;
    }
    mask
}

/// A parameter that is answered without the device.
pub open spec fn is_local_param(param: u64) -> bool {
    param == VIRTGPU_PARAM_LEANDROS_CTX_ID || param == VIRTGPU_PARAM_LEANDROS_LAST_FENCE || param
        == VIRTGPU_PARAM_LEANDROS_HOSTVIS_SPANS || param == VIRTGPU_PARAM_LEANDROS_BLOB_OBJS
}

/// What a parameter that is answered without the device reads as.
pub open spec fn local_value(param: u64, s: BoState, c: Option<GpuCtx>) -> u32 {
    if param == VIRTGPU_PARAM_LEANDROS_CTX_ID {
        match c {
            Some(c) => c.ctx_id,
            None => 0,
        }
    } else if param == VIRTGPU_PARAM_LEANDROS_LAST_FENCE {
        match c {
            Some(c) => c.last_fence as u32,
            None => 0,
        }
    } else if param == VIRTGPU_PARAM_LEANDROS_HOSTVIS_SPANS {
        s.window.dom().len() as u32
    } else {
        s.objs.dom().len() as u32
    }
}

/// `v` is what the device parameter `param` reads as; there is none for a
/// parameter that is not known.
pub open spec fn device_value(param: u64, gpu: GpuInfo, v: Option<u64>) -> bool {
    if param == VIRTGPU_PARAM_3D_FEATURES {
        v == Some(gpu.virgl as u64)
    } else if param == VIRTGPU_PARAM_CAPSET_QUERY_FIX || param
        == VIRTGPU_PARAM_EXPLICIT_DEBUG_NAME {
        v == Some(1u64)
    } else if param == VIRTGPU_PARAM_RESOURCE_BLOB {
        v == Some(gpu.resource_blob as u64)
    } else if param == VIRTGPU_PARAM_HOST_VISIBLE {
        v == Some((gpu.resource_blob && gpu.window_len is Some) as u64)
    } else if param == VIRTGPU_PARAM_CROSS_DEVICE {
        v == Some(0u64)
    } else if param == VIRTGPU_PARAM_CONTEXT_INIT {
        v == Some(gpu.context_init as u64)
    } else if param == VIRTGPU_PARAM_SUPPORTED_CAPSET_IDS {
        v matches Some(mask) && is_capset_mask(gpu.capset_ids@, mask)
    } else if param == VIRTGPU_PARAM_LEANDROS_HOSTVIS_MIB {
        v == Some(
            match gpu.window_len {
                Some(len) => len / 0x10_0000,
                None => 0,
            },
        )
    } else {
        v is None
    }
}

/// What a device parameter reads as.
fn device_param(param: u64, gpu: &GpuInfo) -> (v: Option<u64>)
    ensures
        device_value(param, *gpu, v),
{
    if param == VIRTGPU_PARAM_3D_FEATURES {
        Some(gpu.virgl as u64)
    } else if param == VIRTGPU_PARAM_CAPSET_QUERY_FIX || param
        == VIRTGPU_PARAM_EXPLICIT_DEBUG_NAME {
        Some(1)
    } else if param == VIRTGPU_PARAM_RESOURCE_BLOB {
        Some(gpu.resource_blob as u64)
    } else if param == VIRTGPU_PARAM_HOST_VISIBLE {
        Some((gpu.resource_blob && gpu.window_len.is_some()) as u64)
    } else if param == VIRTGPU_PARAM_CROSS_DEVICE {
        Some(0)
    } else if param == VIRTGPU_PARAM_CONTEXT_INIT {
        Some(gpu.context_init as u64)
    } else if param == VIRTGPU_PARAM_SUPPORTED_CAPSET_IDS {
        Some(capset_mask(&gpu.capset_ids))
    } else if param == VIRTGPU_PARAM_LEANDROS_HOSTVIS_MIB {
        Some(
            match gpu.window_len {
                Some(len) => len / 0x10_0000,
                None => 0,
            },
        )
    } else {
        None
    }
}

/// Reads parameter `param` for `open_id`: the 32 bits that go through the
/// caller's pointer. `has_pointer` says whether there is one, and `gpu` what
/// the device offers, if there is a device.
pub fn virtgpu_handle_getparam(
    param: u64,
    has_pointer: bool,
    open_id: u32,
    ctxs: &GpuContexts,
    bos: &BoRegistry,
    gpu: Option<&GpuInfo>,
) -> (r: Result<u32, DriverError>)
    requires
        ctxs.wf(),
        bos.inv(),
    ensures
        is_local_param(param) ==> r == (if has_pointer {
            Ok(local_value(param, bos@, entry(ctxs@, open_id)))
        } else {
            Err(DriverError::InvalidParameter)
        }),
        !is_local_param(param) && gpu is None ==> r == Err::<u32, DriverError>(
            DriverError::NotFound,
        ),
        !is_local_param(param) && gpu is Some ==> match r {
            Ok(v) => has_pointer && exists|w: u64| #[trigger]
                device_value(param, *gpu->Some_0, Some(w)) && v == w as u32,
            Err(e) => e == DriverError::InvalidParameter && (!has_pointer || device_value(
                param,
                *gpu->Some_0,
                None,
            )),
        },
{
    if param == VIRTGPU_PARAM_LEANDROS_CTX_ID {
        let ctx = ctxs.ctx_lookup(open_id);
        if !has_pointer {
            return Err(DriverError::InvalidParameter);
        }
        return Ok(ctx);
    }
    if param == VIRTGPU_PARAM_LEANDROS_LAST_FENCE {
        let f: u64 = match ctxs.ctx_lookup_entry(open_id) {
            Some(c) => c.last_fence,
            None => 0,
        };
        if !has_pointer {
            return Err(DriverError::InvalidParameter);
        }
        return Ok(f as u32);
    }
    if param == VIRTGPU_PARAM_LEANDROS_HOSTVIS_SPANS {
        if !has_pointer {
            return Err(DriverError::InvalidParameter);
        }
        return Ok(bos.hostvis_span_count());
    }
    if param == VIRTGPU_PARAM_LEANDROS_BLOB_OBJS {
        if !has_pointer {
            return Err(DriverError::InvalidParameter);
        }
        return Ok(bos.blob_obj_count());
    }
    let gpu = match gpu {
        Some(g) => g,
        None => {
            return Err(DriverError::NotFound);
        },
    };
    let value = match device_param(param, gpu) {
        Some(v) => v,
        None => {
            return Err(DriverError::InvalidParameter);
        },
    };
    if !has_pointer {
        return Err(DriverError::InvalidParameter);
    }
    assert(device_value(param, *gpu, Some(value)));
    Ok(value as u32)
}

/// The most bytes of a capability set that are copied out: 1 MiB.
pub const MAX_CAPS_BYTES: u32 = 1048576;

/// First half of reading a capability set: how many bytes the caller wants.
pub fn get_caps_want(addr: u64, size: u32) -> (r: Result<u32, DriverError>)
    ensures
        r == (if addr == 0 || size == 0 {
            Err(DriverError::InvalidParameter)
        } else if size <= MAX_CAPS_BYTES {
            Ok(size)
        } else {
            Ok(MAX_CAPS_BYTES)
        }),
{
    if addr == 0 || size == 0 {
        return Err(DriverError::InvalidParameter);
    }
    if size <= MAX_CAPS_BYTES {
        Ok(size)
    } else {
        Ok(MAX_CAPS_BYTES)
    }
}

/// Second half: how many bytes to fetch, given the size the device gives for the
/// capability set, if it has that set at all.
pub fn get_caps_fetch(want: u32, max_size: Option<u32>) -> (r: Result<u32, DriverError>)
    ensures
        r == (match max_size {
            Some(m) => if m == 0 {
                Err(DriverError::InvalidParameter)
            } else if want <= m {
                Ok(want)
            } else {
                Ok(m)
            },
            None => Err(DriverError::InvalidParameter),
        }),
{
    match max_size {
        Some(m) => if m == 0 {
            Err(DriverError::InvalidParameter)
        } else if want <= m {
            Ok(want)
        } else {
            Ok(m)
        },
        None => Err(DriverError::InvalidParameter),
    }
}

/// The outcome of a plain 3D command: whether the device is there, and whether
/// it did as asked.
pub fn device_result(reply: Option<bool>) -> (r: Result<(), DriverError>)
    ensures
        r == (match reply {
            Some(true) => Ok(()),
            Some(false) => Err(DriverError::Io),
            None => Err(DriverError::NotFound),
        }),
{
    match reply {
        Some(ok) => if ok {
            Ok(())
        } else {
            Err(DriverError::Io)
        },
        None => Err(DriverError::NotFound),
    }
}

/// What is to be done when the last file of an open closes: the buffers that
/// go, in order, and the context to destroy (0 for none).
pub struct OpenRelease {
    pub teardowns: Vec<BoTeardown>,
    pub ctx: u32,
}

/// The last file of open `open_id` closed: its context and its blob handles go.
/// Whatever an export still references stays.
pub fn drm_release_open(bos: &mut BoRegistry, ctxs: &mut GpuContexts, open_id: u32) -> (r:
    OpenRelease)
    requires
        old(bos).inv(),
        old(ctxs).wf(),
    ensures
        final(bos).inv(),
        final(ctxs).wf(),
        open_id == 0 ==> final(bos)@ == old(bos)@ && final(ctxs)@ == old(ctxs)@ && r.teardowns@
            == Seq::<BoTeardown>::empty() && r.ctx == 0,
        open_id != 0 ==> {
            &&& r.ctx == (match entry(old(ctxs)@, open_id) {
                Some(c) => c.ctx_id,
                None => 0,
            })
            &&& entry(final(ctxs)@, open_id) is None
            &&& final(bos)@.owned_by(open_id) == Set::<u32>::empty()
            &&& exists|hs: Seq<u32>| #[trigger]
                listing(hs, old(bos)@.owned_by(open_id)) && final(bos)@ == old(bos)@.drop_handles(
                    hs,
                ) && r.teardowns@ == teardowns(old(bos)@, hs)
        },
        forall|other: u32|
            other != open_id ==> #[trigger] entry(final(ctxs)@, other) == entry(
                old(ctxs)@,
                other,
            ),
        forall|h: u32|
            old(bos)@.handles.contains_key(h) && old(bos)@.handles[h].owner != open_id
                ==> #[trigger] final(bos)@.handles.contains_key(h) && final(bos)@.handles[h] == old(
                bos,
            )@.handles[h],
{
    if open_id == 0 {
        return OpenRelease { teardowns: Vec::new(), ctx: 0 };
    }
    let ctx = ctxs.ctx_release(open_id);
    let teardowns = bos.release_owned(open_id);
    OpenRelease { teardowns, ctx }
}

} // verus!
