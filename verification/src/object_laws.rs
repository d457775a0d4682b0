//! What holds of the objects of the display and of what is said of them.
use crate::drm::auth::{DrmOperation, Sessions};
use crate::drm::device::{first_with, place_plane, switch_crtc};
use crate::drm::framebuffer::row_bytes;
use crate::drm::objects::{
    height_name, width_name, DrmCrtc, DrmModeInfo, DrmObjectId, DrmPlane, DrmPlaneState,
};
use crate::drm::properties::{objection, DrmProperty, DrmPropertyValue};
use crate::gpu_ctx::GpuCtx;
use crate::message::Message;
use crate::serial::asked_bytes;
use crate::text::name_field;
use crate::virtgpu::{
    array_ok, capset_of, ring_ok, rings_of, stream_ok, ContextParam, Execbuffer,
};
use crate::words::decimal;
use vstd::prelude::*;

verus! {

/// The state that a plane is in.
pub open spec fn state_of(p: DrmPlane) -> DrmPlaneState {
    DrmPlaneState {
        plane_id: p.id,
        crtc_id: p.crtc_id,
        fb_id: p.fb_id,
        crtc_x: p.crtc_x,
        crtc_y: p.crtc_y,
        crtc_w: p.crtc_w,
        crtc_h: p.crtc_h,
        src_x: p.src_x,
        src_y: p.src_y,
        src_w: p.src_w,
        src_h: p.src_h,
    }
}

/// A plane that was placed is in the state that was asked for, and every other plane is
/// as it was.
pub proof fn lemma_a_placed_plane_is_where_it_was_put(
    planes: Seq<DrmPlane>,
    st: DrmPlaneState,
    i: int,
)
    requires
        0 <= i < planes.len(),
    ensures
        place_plane(planes, st).len() == planes.len(),
        first_with(planes, st.plane_id, i) ==> state_of(place_plane(planes, st)[i]) == st,
        !first_with(planes, st.plane_id, i) ==> place_plane(planes, st)[i] == planes[i],
{
}

/// A crtc that was switched on has its mode, one that was switched off has none, and
/// every other crtc is as it was.
pub proof fn lemma_a_switched_crtc(
    crtcs: Seq<DrmCrtc>,
    id: DrmObjectId,
    mode: DrmModeInfo,
    on: bool,
    i: int,
)
    requires
        0 <= i < crtcs.len(),
    ensures
        ({
            let after = switch_crtc(crtcs, id, mode, on);
            &&& after.len() == crtcs.len()
            &&& first_with(crtcs, id, i) ==> after[i].enabled == on && (on ==> after[i].mode == Some(
                mode,
            )) && (!on ==> after[i].mode is None) && after[i].id == id
            &&& !first_with(crtcs, id, i) ==> after[i] == crtcs[i]
        }),
{
}

/// A row holds its bits in the fewest whole bytes.
pub proof fn lemma_a_row_in_whole_bytes(width: int, bpp: int)
    ensures
        8 * row_bytes(width, bpp) - 8 < width * bpp <= 8 * row_bytes(width, bpp),
{
}

/// The names of the usual sizes are their numbers.
pub proof fn lemma_sizes_go_by_their_numbers(n: u16)
    ensures
        n == 640 || n == 800 || n == 1024 || n == 1280 || n == 1366 || n == 1920 || n == 3840
            ==> width_name(n) == decimal(n as int),
        n == 480 || n == 600 || n == 768 || n == 1024 || n == 1080 || n == 1200 || n == 2160
            ==> height_name(n) == decimal(n as int),
{
    reveal_with_fuel(decimal, 5);
    reveal_strlit("640");
    reveal_strlit("800");
    reveal_strlit("1024");
    reveal_strlit("1280");
    reveal_strlit("1366");
    reveal_strlit("1920");
    reveal_strlit("3840");
    reveal_strlit("480");
    reveal_strlit("600");
    reveal_strlit("768");
    reveal_strlit("1080");
    reveal_strlit("1200");
    reveal_strlit("2160");
    if n == 640 || n == 800 || n == 1024 || n == 1280 || n == 1366 || n == 1920 || n == 3840 {
        assert(width_name(n) =~= decimal(n as int));
    }
    if n == 480 || n == 600 || n == 768 || n == 1024 || n == 1080 || n == 1200 || n == 2160 {
        assert(height_name(n) =~= decimal(n as int));
    }
}

/// An ASCII name of less than 32 characters reads back from its field up to the first
/// zero.
pub proof fn lemma_a_name_reads_back(name: Seq<char>, i: int)
    requires
        0 <= i < 32,
        name.len() < 32,
        forall|j: int| 0 <= j < name.len() ==> 0 < (#[trigger] name[j] as int) <= 0x7f,
    ensures
        name_field(name).len() == 32,
        i < name.len() ==> name_field(name)[i] as int == name[i] as int && name_field(name)[i] != 0,
        i >= name.len() ==> name_field(name)[i] == 0,
{
    if i < name.len() {
        assert(0 < (name[i] as int) <= 0x7f);
    }
}

/// What a session needs for an operation: to be there and authenticated, the bit of the
/// operation among its capabilities, and, to change what is displayed, to be master.
pub proof fn lemma_what_an_operation_takes(s: Sessions, id: u32, op: DrmOperation, i: int)
    requires
        crate::drm::auth::is_first(s.active, id, i),
    ensures
        ({
            let bits = s.active[i].capabilities.bits;
            let bit: u32 = match op {
                DrmOperation::ModeSet => bits & 2,
                DrmOperation::CreateFramebuffer => bits & 4,
                DrmOperation::AtomicCommit => bits & 8,
                DrmOperation::Authenticate => bits & 32,
            };
            let displays = op is ModeSet || op is AtomicCommit;
            s.permits(id, op) <==> s.active[i].authenticated && bit != 0 && (displays ==> s.master
                == Some(id))
        }),
{
    assert(1u32 << 1 == 2 && 1u32 << 2 == 4 && 1u32 << 3 == 8 && 1u32 << 5 == 32) by (bit_vector);
    assert forall|j: int| #[trigger]
        crate::drm::auth::is_first(s.active, id, j) implies j == i by {
        if j < i {
            assert(s.active[j].session_id != id);
        } else if i < j {
            assert(s.active[i].session_id != id);
        }
    }
}

/// A session that is not there may do nothing.
pub proof fn lemma_strangers_may_do_nothing(s: Sessions, id: u32, op: DrmOperation)
    requires
        forall|i: int| 0 <= i < s.active.len() ==> (#[trigger] s.active[i]).session_id != id,
    ensures
        !s.permits(id, op),
{
}

/// A property that can be changed takes exactly the numbers between its limits, the
/// limits among them, and exactly the choices that it has names for; one that cannot
/// be changed takes nothing.
pub proof fn lemma_what_a_property_takes(p: DrmProperty, v: u64, w: i64, c: u32)
    ensures
        p.flags & 4 == 0 && p.property_type is Range && p.values@.len() >= 2 ==> (objection(
            p,
            DrmPropertyValue::Range(v),
        ) is None <==> p.values@[0] <= v && v <= p.values@[1]),
        p.flags & 4 == 0 && p.property_type is SignedRange && p.values@.len() >= 2 ==> (objection(
            p,
            DrmPropertyValue::SignedRange(w),
        ) is None <==> (p.values@[0] as i64) <= w && w <= (p.values@[1] as i64)),
        p.flags & 4 == 0 && p.property_type is Enum ==> (objection(
            p,
            DrmPropertyValue::Enum(c),
        ) is None <==> c < p.enum_values@.len()),
        p.flags & 4 != 0 ==> objection(p, DrmPropertyValue::Range(v)) is Some && objection(
            p,
            DrmPropertyValue::SignedRange(w),
        ) is Some && objection(p, DrmPropertyValue::Enum(c)) is Some,
        !(p.property_type is Range) ==> objection(p, DrmPropertyValue::Range(v)) is Some,
        !(p.property_type is SignedRange) ==> objection(p, DrmPropertyValue::SignedRange(w)) is Some,
        !(p.property_type is Enum) ==> objection(p, DrmPropertyValue::Enum(c)) is Some,
{
}

/// Of the parameters of a context the last one of a kind counts: the capability set
/// under number 1, and the rings under number 2, of which there is at least one.
pub proof fn lemma_the_last_parameter_counts(params: Seq<ContextParam>, kind: u64, i: int)
    requires
        0 <= i < params.len(),
        params[i].param == kind,
        forall|j: int| i < j < params.len() ==> (#[trigger] params[j]).param != kind,
        params[i].value <= u32::MAX,
    ensures
        kind == 1 ==> capset_of(params) == params[i].value,
        kind == 2 ==> rings_of(params) == (if params[i].value == 0 {
            1
        } else {
            params[i].value
        }),
    decreases params.len(),
{
    if i < params.len() - 1 {
        let less = params.drop_last();
        assert(params[params.len() - 1].param != kind);
        assert forall|j: int| i < j < less.len() implies (#[trigger] less[j]).param != kind by {
            assert(less[j] == params[j]);
        }
        lemma_the_last_parameter_counts(less, kind, i);
    }
}

/// Without such a parameter there is no capability set, and one ring.
pub proof fn lemma_parameters_that_are_missing(params: Seq<ContextParam>)
    ensures
        (forall|i: int| 0 <= i < params.len() ==> (#[trigger] params[i]).param != 1) ==> capset_of(
            params,
        ) == 0,
        (forall|i: int| 0 <= i < params.len() ==> (#[trigger] params[i]).param != 2) ==> rings_of(
            params,
        ) == 1,
    decreases params.len(),
{
    if params.len() > 0 {
        let less = params.drop_last();
        lemma_parameters_that_are_missing(less);
        assert(params.last() == params[params.len() - 1]);
        assert forall|i: int| 0 <= i < less.len() implies #[trigger] less[i] == params[i] by {}
        if forall|i: int| 0 <= i < params.len() ==> (#[trigger] params[i]).param != 1 {
            assert forall|i: int| 0 <= i < less.len() implies (#[trigger] less[i]).param != 1 by {
                assert(params[i].param != 1);
            }
        }
        if forall|i: int| 0 <= i < params.len() ==> (#[trigger] params[i]).param != 2 {
            assert forall|i: int| 0 <= i < less.len() implies (#[trigger] less[i]).param != 2 by {
                assert(params[i].param != 2);
            }
        }
    }
}

/// A message to the serial port is written from its second byte on, as many bytes as
/// its first one says and the message holds. A message of another kind writes nothing.
pub proof fn lemma_what_a_message_writes(m: Message, i: int)
    requires
        m.data@.len() == 56,
    ensures
        m.tag == 1 ==> asked_bytes(m).len() == (if m.data@[0] < 55 {
            m.data@[0] as int
        } else {
            55
        }),
        m.tag == 1 && 0 <= i < asked_bytes(m).len() ==> asked_bytes(m)[i] == m.data@[1 + i],
        m.tag != 1 ==> asked_bytes(m).len() == 0,
{
}

/// The limits of a submission: up to 4 MiB of commands, given with their length or not
/// at all, and up to 1024 buffers, which have to be somewhere. A ring that is chosen,
/// which bit 2 of the flags tells, has to be one of the context's.
pub proof fn lemma_the_limits_of_a_submission(e: Execbuffer, c: GpuCtx)
    ensures
        stream_ok(e) <==> (e.command == 0 && e.size == 0) || (e.command != 0 && 0 < e.size
            <= 4_194_304),
        array_ok(e) <==> e.num_bo_handles == 0 || (e.bo_handles != 0 && e.num_bo_handles <= 1024),
        ring_ok(e, Some(c)) <==> c.ctx_id != 0 && (e.flags & 4 == 0 || e.ring_idx < c.num_rings),
        !ring_ok(e, None),
{
}

} // verus!
