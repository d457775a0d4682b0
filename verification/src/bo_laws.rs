//! What holds of the buffer-object registry across operations.
use crate::bo::{lemma_drop_handle_wf, may_reach, naming, BlobView, BoState, FIRST_BLOB_HANDLE};
use vstd::prelude::*;

verus! {

/// Closing a handle twice is closing it once: the second call finds nothing.
pub proof fn lemma_close_is_idempotent(s: BoState, handle: u32, open_id: u32)
    ensures
        s.close(handle, open_id).close(handle, open_id) == s.close(handle, open_id),
{
    let d = s.retire_dumb(handle);
    let t = s.close(handle, open_id);
    assert(t.dumb == d.dumb);
    assert(t.dumb_of(handle) is None);
    assert(t.retire_dumb(handle) == t);
}

/// While fewer dumb buffers than the gap below the blob handles were ever made,
/// a handle is one or the other, so closing it drops exactly one reference.
pub proof fn lemma_handle_is_one_kind(s: BoState, handle: u32)
    requires
        s.wf(),
        s.next_dumb_handle <= FIRST_BLOB_HANDLE,
    ensures
        !(s.dumb.contains_key(handle) && s.handles.contains_key(handle)),
{
}

/// The identity of the next object is not that of a live one.
pub proof fn lemma_identity_is_fresh(s: BoState)
    requires
        s.wf(),
    ensures
        !s.objs.contains_key(s.next_obj),
        s.no_dumb(s.next_obj),
{
}

/// An exported blob outlives the close of its handle, with the same pages, the
/// same host resource and the same mapping.
pub proof fn lemma_exported_blob_outlives_close(s: BoState, handle: u32, open_id: u32)
    requires
        s.wf(),
        s.blob_of(handle, open_id) is Some,
        s.objs[s.handles[handle].obj].refs < u32::MAX,
    ensures
        ({
            let obj = s.handles[handle].obj;
            let t = s.export(handle, open_id).close(handle, open_id);
            &&& t.objs.contains_key(obj)
            &&& t.objs[obj] == s.objs[obj]
            &&& !t.handles.contains_key(handle)
        }),
{
}

/// An exported dumb buffer outlives the close of its handle; the handle itself
/// resolves to nothing any more.
pub proof fn lemma_exported_dumb_outlives_close(s: BoState, handle: u32, open_id: u32)
    requires
        s.wf(),
        s.plain_dumb(handle),
        s.dumb[handle].refs < u32::MAX,
    ensures
        ({
            let t = s.export(handle, open_id).close(handle, open_id);
            &&& t.dumb.contains_key(handle)
            &&& t.dumb[handle].phys == s.dumb[handle].phys
            &&& t.dumb[handle].order == s.dumb[handle].order
            &&& t.dumb[handle].refs == s.dumb[handle].refs
            &&& t.dumb_of(handle) is None
        }),
{
}

/// Once the only handle is closed and the only export released, the blob is
/// gone.
pub proof fn lemma_last_reference_frees(s: BoState, handle: u32, open_id: u32)
    requires
        s.wf(),
        s.blob_of(handle, open_id) is Some,
        s.exports(s.handles[handle].obj) == 0,
        naming(s.handles, s.handles[handle].obj).len() == 1,
    ensures
        !s.export(handle, open_id).close(handle, open_id).unref_blob(
            s.handles[handle].obj,
        ).objs.contains_key(s.handles[handle].obj),
{
}

/// The host resource is released, the window range given back and the pages
/// freed exactly when the object leaves the registry, and the object leaves
/// exactly when its last reference goes.
pub proof fn lemma_freed_exactly_with_the_object(s: BoState, obj: u32, ctx: u32)
    requires
        s.wf(),
        s.objs.contains_key(obj),
    ensures
        ({
            let gone = !s.unref_blob(obj).objs.contains_key(obj);
            let t = s.blob_teardown(obj, ctx);
            &&& gone <==> s.objs[obj].refs == 1
            &&& t.unref <==> gone
            &&& t.pages is Some <==> gone && s.objs[obj].phys != 0
            &&& t.window is Some <==> gone && s.objs[obj].map_phys != 0
            &&& t.unmap <==> t.window is Some
        }),
{
}

/// An open can neither see nor change a blob of another open.
pub proof fn lemma_opens_are_isolated(s: BoState, handle: u32, caller: u32, fence: u64)
    requires
        s.wf(),
        s.handles.contains_key(handle),
        !may_reach(caller, s.handles[handle].owner),
    ensures
        s.blob_of(handle, caller) is None,
        s.export_of(handle, caller) is None,
        s.export(handle, caller) == s,
        s.attach(handle, caller, fence) == s,
        s.close(handle, caller).handles == s.handles,
        s.close(handle, caller).objs == s.objs,
{
}

/// Dropping handles leaves every exported object in place with its exports.
pub proof fn lemma_exports_outlive_their_open(s: BoState, hs: Seq<u32>, obj: u32)
    requires
        s.wf(),
        s.objs.contains_key(obj),
        s.exports(obj) > 0,
        forall|i: int| 0 <= i < hs.len() ==> s.handles.contains_key(#[trigger] hs[i]),
        forall|i: int, j: int| 0 <= i < j < hs.len() ==> hs[i] < hs[j],
    ensures
        s.drop_handles(hs).wf(),
        s.drop_handles(hs).objs.contains_key(obj),
        s.drop_handles(hs).exports(obj) == s.exports(obj),
        s.drop_handles(hs).objs[obj].phys == s.objs[obj].phys,
        forall|h: u32| #[trigger]
            s.drop_handles(hs).handles.contains_key(h) <==> s.handles.contains_key(h)
                && !hs.contains(h),
    decreases hs.len(),
{
    if hs.len() > 0 {
        let init = hs.drop_last();
        let h = hs.last();
        lemma_exports_outlive_their_open(s, init, obj);
        let t = s.drop_handles(init);
        assert(s.handles.contains_key(hs[hs.len() - 1]));
        assert(!init.contains(h)) by {
            if init.contains(h) {
                let i = choose|i: int| 0 <= i < init.len() && init[i] == h;
                assert(hs[i] < hs[hs.len() - 1]);
            }
        }
        assert(t.handles.contains_key(h));
        lemma_drop_handle_wf(t, h);
        assert(t.objs.contains_key(t.handles[h].obj));
        if t.handles[h].obj != obj {
            assert(naming(t.handles.remove(h), obj) =~= naming(t.handles, obj));
        }
        assert forall|k: u32| #[trigger] s.drop_handles(hs).handles.contains_key(k)
            <==> s.handles.contains_key(k) && !hs.contains(k) by {
            assert(hs.contains(k) <==> init.contains(k) || k == h) by {
                if init.contains(k) {
                    let i = choose|i: int| 0 <= i < init.len() && init[i] == k;
                    assert(hs[i] == k);
                }
                if hs.contains(k) && k != h {
                    let i = choose|i: int| 0 <= i < hs.len() && hs[i] == k;
                    assert(init[i] == k);
                }
                assert(hs[hs.len() - 1] == h);
            }
            assert(t.handles.contains_key(k) <==> s.handles.contains_key(k) && !init.contains(k));
        }
    }
}

/// A blob is mapped once: from then on every handle of it, in every open that
/// may reach it, leads to the same address.
pub proof fn lemma_mapped_once(
    s: BoState,
    handle: u32,
    open_id: u32,
    off: u64,
    token: u64,
    info: u32,
)
    requires
        s.blob_of(handle, open_id) is Some,
    ensures
        ({
            let b = s.blob_of(handle, open_id)->0;
            let t = s.mapped(b.obj, off, token, info);
            &&& t.blob_of(handle, open_id) == Some(BlobView { map_phys: token, ..b })
            &&& forall|h: u32, o: u32|
                s.blob_of(h, o) is Some ==> (#[trigger] t.blob_of(h, o)) == Some(
                    BlobView {
                        map_phys: if s.blob_of(h, o)->0.obj == b.obj {
                            token
                        } else {
                            s.blob_of(h, o)->0.map_phys
                        },
                        ..s.blob_of(h, o)->0
                    },
                )
        }),
{
}

/// A submission's fence reaches every buffer that it names, and no other.
pub proof fn lemma_fence_reaches_what_was_named(
    s: BoState,
    named: Seq<u32>,
    open_id: u32,
    fence: u64,
    handle: u32,
)
    requires
        s.blob_of(handle, open_id) is Some || s.plain_dumb(handle),
    ensures
        ({
            let t = s.attach_all(named, open_id, fence);
            &&& named.contains(handle) ==> t.fence_of(handle, open_id) == Some(fence)
            &&& (forall|h: u32| #[trigger]
                named.contains(h) ==> h != handle && !same_blob(s, h, handle))
                ==> t.fence_of(handle, open_id) == s.fence_of(handle, open_id)
        }),
{
    lemma_attach_all(s, named, open_id, fence, handle);
}

/// Two handles name the same blob.
pub open spec fn same_blob(s: BoState, a: u32, b: u32) -> bool {
    s.handles.contains_key(a) && s.handles.contains_key(b) && s.handles[a].obj == s.handles[b].obj
}

/// What attaching a fence leaves alone, and what becomes of one handle's fence.
proof fn lemma_attach_all(s: BoState, named: Seq<u32>, open_id: u32, fence: u64, handle: u32)
    requires
        s.blob_of(handle, open_id) is Some || s.plain_dumb(handle),
    ensures
        ({
            let t = s.attach_all(named, open_id, fence);
            &&& t.handles == s.handles
            &&& t.objs.dom() == s.objs.dom()
            &&& t.dumb.dom() == s.dumb.dom()
            &&& forall|d: u32| #[trigger]
                t.dumb.contains_key(d) ==> t.dumb[d].handle_live == s.dumb[d].handle_live
            &&& named.contains(handle) ==> t.fence_of(handle, open_id) == Some(fence)
            &&& (forall|h: u32| #[trigger]
                named.contains(h) ==> h != handle && !same_blob(s, h, handle))
                ==> t.fence_of(handle, open_id) == s.fence_of(handle, open_id)
        }),
    decreases named.len(),
{
    if named.len() > 0 {
        let rest = named.drop_last();
        let last = named.last();
        lemma_attach_all(s, rest, open_id, fence, handle);
        let t = s.attach_all(rest, open_id, fence);
        let u = t.attach(last, open_id, fence);
        assert(named =~= rest.push(last));
        assert(u.objs.dom() =~= t.objs.dom());
        assert(u.dumb.dom() =~= t.dumb.dom());
        assert(named.contains(last)) by {
            assert(named[named.len() - 1] == last);
        }
        assert forall|h: u32| #[trigger] rest.contains(h) implies named.contains(h) by {
            let i = choose|i: int| 0 <= i < rest.len() && rest[i] == h;
            assert(named[i] == h);
        }
        if named.contains(handle) && handle != last {
            let i = choose|i: int| 0 <= i < named.len() && named[i] == handle;
            assert(rest[i] == handle);
        }
    }
}

} // verus!
