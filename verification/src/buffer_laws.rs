//! What new buffers read back as, and what is told of formats, clips and displays.
use crate::bo::{BoState, NewBlob};
use crate::drm_device_interface::standard_capability;
use crate::kms::byte_sum;
use crate::kms_props::formats_of;
use crate::prop_blobs::clips_of;
use crate::snd::{ahead, VirtioSnd};
use vstd::prelude::*;

verus! {

/// A new blob reads back under its handle as it was made: for its owner, for a caller
/// without identity and, if nobody owns it, for everyone; not for another caller. It
/// has no fence and no mapping yet, and what other handles name is as it was.
pub proof fn lemma_a_new_blob_reads_back(
    s: BoState,
    b: NewBlob,
    owner: u32,
    ctx: u32,
    caller: u32,
    other: u32,
)
    requires
        !s.handles.contains_key(s.next_blob_handle),
        !s.objs.contains_key(s.next_obj),
        other != s.next_blob_handle,
    ensures
        ({
            let t = s.add_blob(b, owner, ctx);
            let h = s.next_blob_handle;
            &&& t.blob_of(h, caller) is Some <==> caller == owner || caller == 0 || owner == 0
            &&& t.blob_of(h, caller) matches Some(v) ==> {
                &&& (v.phys, v.res_handle, v.size, v.blob_mem) == (
                    b.phys,
                    b.res_handle,
                    b.size,
                    b.blob_mem,
                )
                &&& v.last_fence == 0
                &&& v.map_phys == 0
            }
            &&& s.handles.contains_key(other) && s.objs.contains_key(s.handles[other].obj)
                ==> t.blob_of(other, caller) == s.blob_of(other, caller)
            &&& t.dumb == s.dumb
        }),
{
}

/// A new dumb buffer reads back under its handle as it was made, and what other handles
/// name is as it was.
pub proof fn lemma_a_new_dumb_buffer_reads_back(
    s: BoState,
    phys: usize,
    order: usize,
    other: u32,
)
    requires
        other != s.next_dumb_handle,
    ensures
        ({
            let t = s.add_dumb(phys, order);
            &&& t.dumb_of(s.next_dumb_handle) matches Some(d) && d.phys == phys && d.order == order
                && d.last_fence == 0 && d.refs == 1
            &&& t.dumb_of(other) == s.dumb_of(other)
            &&& t.handles == s.handles
            &&& t.objs == s.objs
        }),
{
}

/// A mapped blob can be reached at each of its bytes, from the first to the last and no
/// further.
pub proof fn lemma_a_mapped_blob_covers_its_bytes(
    s: BoState,
    obj: u32,
    off: u64,
    token: u64,
    info: u32,
    at: u64,
)
    requires
        s.objs.contains_key(obj),
        token != 0,
        token + s.objs[obj].size <= u64::MAX,
    ensures
        ({
            let o = s.mapped(obj, off, token, info).objs[obj];
            BoState::covers(o, at) <==> token <= at && at < token + s.objs[obj].size
        }),
{
}

/// Changing one byte of a sum.
proof fn lemma_sum_of_update(b: Seq<u8>, i: int, v: u8, n: int)
    requires
        0 <= i < b.len(),
        0 <= n <= b.len(),
    ensures
        byte_sum(b.update(i, v), n) == byte_sum(b, n) + (if i < n {
            v - b[i]
        } else {
            0
        }),
    decreases n,
{
    if n > 0 {
        lemma_sum_of_update(b, i, v, n - 1);
    }
}

/// The bytes of a display's block sum up to a multiple of 256, so that no single byte of
/// a good one can be wrong without being noticed, and every byte counts.
pub proof fn lemma_a_wrong_byte_is_noticed(b: Seq<u8>, i: int, v: u8)
    requires
        b.len() == 128,
        0 <= i < 128,
        v != b[i],
        byte_sum(b, 128) % 256 == 0,
    ensures
        byte_sum(b.update(i, v), 128) % 256 != 0,
{
    lemma_sum_of_update(b, i, v, 128);
}

/// Four characters as a number, the first in the lowest byte.
pub open spec fn four_characters(a: u8, b: u8, c: u8, d: u8) -> int {
    a + 0x100 * b + 0x1_0000 * c + 0x100_0000 * d
}

/// The cursor is always with alpha (`AR24`); the other planes can be without (`XR24`)
/// too.
pub proof fn lemma_formats_by_name(plane: u32)
    ensures
        ({
            let x = four_characters(0x58, 0x52, 0x32, 0x34);
            let a = four_characters(0x41, 0x52, 0x32, 0x34);
            &&& forall|i: int|
                0 <= i < formats_of(plane).len() ==> (#[trigger] formats_of(plane)[i] == a
                    || formats_of(plane)[i] == x)
            &&& formats_of(31).len() == 1 && formats_of(31)[0] == a
            &&& plane != 31 ==> formats_of(plane).len() == 2 && formats_of(plane)[0] == x
                && formats_of(plane)[1] == a
        }),
{
}

/// Marks are taken exactly from a stored blob of one to 64 whole clips, and all of
/// them.
pub proof fn lemma_which_blobs_are_clips(blobs: Map<u32, Seq<u8>>, id: u32)
    ensures
        clips_of(blobs, id) is Some <==> id != 0 && blobs.contains_key(id) && exists|n: int|
            1 <= n <= 64 && #[trigger] (16 * n) == blobs[id].len(),
        clips_of(blobs, id) matches Some(c) ==> 16 * c.len() == blobs[id].len(),
{
    let len = blobs[id].len() as int;
    if clips_of(blobs, id) is Some {
        assert(16 * (len / 16) == len);
        assert(1 <= len / 16 <= 64);
    }
}

/// What the standard interface can do: dumb buffers, stamps of the monotonic clock,
/// events with their crtc, buffers passed both ways, and cursors of 64 by 64 pixels;
/// nothing else.
pub proof fn lemma_standard_capabilities(c: u64)
    ensures
        standard_capability(0x1) == 1,
        standard_capability(0x6) == 1,
        standard_capability(0x12) == 1,
        standard_capability(0x5) == 3,
        standard_capability(0x8) == 64,
        standard_capability(0x9) == 64,
        standard_capability(c) != 0 ==> c == 0x1 || c == 0x5 || c == 0x6 || c == 0x8 || c == 0x9 || c
            == 0x12,
{
}

/// Silence is wanted exactly while the stream runs and fewer than 32 buffers wait; a
/// buffer that was queued is one more that waits.
pub proof fn lemma_silence_and_the_queue(s: VirtioSnd, used: u16)
    requires
        s.inv(),
        s.initialized,
    ensures
        s.wants_silence(used) <==> s.stream_active && ahead(s.tx->0.last_avail_idx, used) < 32,
        s.has_room(used) && s.backlog(used) < 65535 ==> s.queued(used).backlog(used) == s.backlog(
            used,
        ) + 1,
        !s.has_room(used) ==> s.queued(used).backlog(used) == s.backlog(used),
        s.has_room(used) ==> s.backlog(used) < 256,
{
}

} // verus!
