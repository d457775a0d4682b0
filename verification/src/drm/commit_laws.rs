//! What a commit leaves behind.
use crate::drm::device::{
    committed, copy_of, first_with, none_with, place_plane, place_planes, switch_crtc,
    switch_crtcs, CommitOutcome, DrmDevice, HardwareFb,
};
use crate::drm::modes::test_passes;
use crate::drm::objects::{
    DrmAtomicState, DrmCrtc, DrmModeInfo, DrmObject, DrmObjectId, DrmPlane, DrmPlaneState,
};
use vstd::prelude::*;

verus! {

/// Crtc `i` is the one with id `s.0`, and is as `s` says.
pub open spec fn crtc_is(crtcs: Seq<DrmCrtc>, s: (DrmObjectId, DrmModeInfo, bool), i: int) -> bool {
    &&& first_with(crtcs, s.0, i)
    &&& crtcs[i].enabled == s.2
    &&& crtcs[i].mode == (if s.2 {
        Some(s.1)
    } else {
        None
    })
}

/// Plane `i` is the one that `st` names, and is as `st` says.
pub open spec fn plane_is(planes: Seq<DrmPlane>, st: DrmPlaneState, i: int) -> bool {
    &&& first_with(planes, st.plane_id, i)
    &&& planes[i].crtc_id == st.crtc_id
    &&& planes[i].fb_id == st.fb_id
    &&& planes[i].crtc_x == st.crtc_x
    &&& planes[i].crtc_y == st.crtc_y
    &&& planes[i].crtc_w == st.crtc_w
    &&& planes[i].crtc_h == st.crtc_h
    &&& planes[i].src_x == st.src_x
    &&& planes[i].src_y == st.src_y
    &&& planes[i].src_w == st.src_w
    &&& planes[i].src_h == st.src_h
}

/// Entry `k` of the crtc states is the last for its crtc.
pub open spec fn last_for_crtc(
    states: Seq<(DrmObjectId, DrmModeInfo, bool)>,
    k: int,
    n: int,
) -> bool {
    &&& 0 <= k < n
    &&& forall|j: int| k < j < n ==> (#[trigger] states[j]).0 != states[k].0
}

/// Entry `k` of the plane states is the last for its plane.
pub open spec fn last_for_plane(states: Seq<DrmPlaneState>, k: int, n: int) -> bool {
    &&& 0 <= k < n
    &&& forall|j: int| k < j < n ==> (#[trigger] states[j]).plane_id != states[k].plane_id
}

/// The first object with an id stands where it stood if the ids are the same.
proof fn lemma_same_ids<T: DrmObject>(a: Seq<T>, b: Seq<T>, id: DrmObjectId, i: int)
    requires
        a.len() == b.len(),
        forall|j: int| 0 <= j < a.len() ==> (#[trigger] b[j]).obj_id() == a[j].obj_id(),
    ensures
        first_with(a, id, i) <==> first_with(b, id, i),
        none_with(a, id) <==> none_with(b, id),
{
    if first_with(a, id, i) {
        assert forall|j: int| 0 <= j < i implies (#[trigger] b[j]).obj_id() != id by {
            assert(a[j].obj_id() != id);
        }
    }
    if first_with(b, id, i) {
        assert forall|j: int| 0 <= j < i implies (#[trigger] a[j]).obj_id() != id by {
            assert(b[j].obj_id() != id);
        }
    }
    if none_with(a, id) {
        assert forall|j: int| 0 <= j < b.len() implies (#[trigger] b[j]).obj_id() != id by {
            assert(a[j].obj_id() != id);
        }
    }
    if none_with(b, id) {
        assert forall|j: int| 0 <= j < a.len() implies (#[trigger] a[j]).obj_id() != id by {
            assert(b[j].obj_id() != id);
        }
    }
}

/// Switching crtcs keeps their ids.
proof fn lemma_switching_keeps_ids(
    crtcs: Seq<DrmCrtc>,
    states: Seq<(DrmObjectId, DrmModeInfo, bool)>,
    n: int,
)
    ensures
        switch_crtcs(crtcs, states, n).len() == crtcs.len(),
        forall|j: int|
            0 <= j < crtcs.len() ==> (#[trigger] switch_crtcs(crtcs, states, n)[j]).obj_id()
                == crtcs[j].obj_id(),
    decreases n,
{
    if n > 0 {
        lemma_switching_keeps_ids(crtcs, states, n - 1);
    }
}

/// Placing planes keeps their ids.
proof fn lemma_placing_keeps_ids(planes: Seq<DrmPlane>, states: Seq<DrmPlaneState>, n: int)
    ensures
        place_planes(planes, states, n).len() == planes.len(),
        forall|j: int|
            0 <= j < planes.len() ==> (#[trigger] place_planes(planes, states, n)[j]).obj_id()
                == planes[j].obj_id(),
    decreases n,
{
    if n > 0 {
        lemma_placing_keeps_ids(planes, states, n - 1);
    }
}

/// An object with an id has a first.
proof fn lemma_there_is_a_first<T: DrmObject>(objs: Seq<T>, id: DrmObjectId) -> (i: int)
    requires
        !none_with(objs, id),
    ensures
        first_with(objs, id, i),
    decreases objs.len(),
{
    let last = objs.len() - 1;
    if none_with(objs.drop_last(), id) {
        assert forall|j: int| 0 <= j < last implies (#[trigger] objs[j]).obj_id() != id by {
            assert(objs.drop_last()[j].obj_id() != id);
        }
        last
    } else {
        let i = lemma_there_is_a_first(objs.drop_last(), id);
        assert forall|j: int| 0 <= j < i implies (#[trigger] objs[j]).obj_id() != id by {
            assert(objs.drop_last()[j].obj_id() != id);
        }
        i
    }
}

/// The last entry for a crtc holds in the end.
proof fn lemma_last_mode_holds(
    crtcs: Seq<DrmCrtc>,
    states: Seq<(DrmObjectId, DrmModeInfo, bool)>,
    k: int,
    n: int,
    i: int,
)
    requires
        last_for_crtc(states, k, n),
        first_with(crtcs, states[k].0, i),
    ensures
        crtc_is(switch_crtcs(crtcs, states, n), states[k], i),
    decreases n,
{
    let id = states[k].0;
    let before = switch_crtcs(crtcs, states, n - 1);
    let after = switch_crtcs(crtcs, states, n);
    lemma_switching_keeps_ids(crtcs, states, n - 1);
    lemma_switching_keeps_ids(crtcs, states, n);
    lemma_same_ids(crtcs, before, id, i);
    lemma_same_ids(crtcs, after, id, i);
    let s = states[n - 1];
    assert(after == switch_crtc(before, s.0, s.1, s.2));
    if k < n - 1 {
        lemma_last_mode_holds(crtcs, states, k, n - 1, i);
        assert(s.0 != id);
        assert(after[i] == before[i]);
    }
}

/// The last entry for a plane holds in the end.
proof fn lemma_last_placing_holds(
    planes: Seq<DrmPlane>,
    states: Seq<DrmPlaneState>,
    k: int,
    n: int,
    i: int,
)
    requires
        last_for_plane(states, k, n),
        first_with(planes, states[k].plane_id, i),
    ensures
        plane_is(place_planes(planes, states, n), states[k], i),
    decreases n,
{
    let id = states[k].plane_id;
    let before = place_planes(planes, states, n - 1);
    let after = place_planes(planes, states, n);
    lemma_placing_keeps_ids(planes, states, n - 1);
    lemma_placing_keeps_ids(planes, states, n);
    lemma_same_ids(planes, before, id, i);
    lemma_same_ids(planes, after, id, i);
    assert(after == place_plane(before, states[n - 1]));
    if k < n - 1 {
        lemma_last_placing_holds(planes, states, k, n - 1, i);
        assert(states[n - 1].plane_id != id);
        assert(after[i] == before[i]);
    }
}

/// A state that passes the test can be committed, wherever the screen can show
/// its planes: the commit succeeds, and every crtc and plane that the state
/// names is as the last entry for it says.
pub proof fn lemma_tested_state_commits(
    a: DrmDevice,
    b: DrmDevice,
    state: DrmAtomicState,
    hw: Option<HardwareFb>,
    out: CommitOutcome,
    n: int,
)
    requires
        test_passes(a, state),
        committed(a, b, state, hw, out, n),
        a.fb_integration ==> forall|k: int|
            0 <= k < state.plane_states@.len() ==> copy_of(
                a.framebuffers@,
                #[trigger] state.plane_states@[k],
                hw,
            ) is Ok,
    ensures
        out.result is Ok,
        forall|k: int| #[trigger]
            last_for_crtc(state.crtc_states@, k, state.crtc_states@.len() as int)
                ==> exists|i: int| #[trigger] crtc_is(b.crtcs@, state.crtc_states@[k], i),
        forall|k: int| #[trigger]
            last_for_plane(state.plane_states@, k, state.plane_states@.len() as int)
                ==> exists|i: int| #[trigger] plane_is(b.planes@, state.plane_states@[k], i),
{
    let crtcs = state.crtc_states@;
    let planes = state.plane_states@;
    if out.result is Err {
        assert(copy_of(a.framebuffers@, planes[n], hw) is Ok);
    }
    assert forall|k: int| #[trigger] last_for_crtc(crtcs, k, crtcs.len() as int) implies exists|
        i: int,
    | #[trigger] crtc_is(b.crtcs@, crtcs[k], i) by {
        let i = lemma_there_is_a_first(a.crtcs@, crtcs[k].0);
        lemma_last_mode_holds(a.crtcs@, crtcs, k, crtcs.len() as int, i);
        assert(crtc_is(b.crtcs@, crtcs[k], i));
    }
    assert forall|k: int| #[trigger] last_for_plane(planes, k, planes.len() as int) implies exists|
        i: int,
    | #[trigger] plane_is(b.planes@, planes[k], i) by {
        let i = lemma_there_is_a_first(a.planes@, planes[k].plane_id);
        lemma_last_placing_holds(a.planes@, planes, k, planes.len() as int, i);
        assert(plane_is(b.planes@, planes[k], i));
    }
}

} // verus!
