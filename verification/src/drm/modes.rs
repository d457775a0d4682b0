//! Standard modes, mode checks, and changes of mode.
use crate::drm::device::{committed, none_with, CommitOutcome, DrmDevice, HardwareFb};
use crate::drm::mode_flags::{PHSYNC, PVSYNC};
use crate::drm::mode_types::DRIVER;
use crate::drm::objects::{
    lemma_timing_fits, timing_fits, DrmAtomicState, DrmModeInfo, DrmObject, DrmObjectId,
    DrmPlaneState,
};
use crate::DriverError;
use vstd::prelude::*;

verus! {

/// Standard display modes.
pub struct StandardModes;

/// The standard modes: width, height, refresh rate.
pub open spec fn vesa_table() -> Seq<(u16, u16, u32)> {
    seq![
        (640, 480, 60),
        (640, 480, 72),
        (640, 480, 75),
        (640, 480, 85),
        (800, 600, 56),
        (800, 600, 60),
        (800, 600, 72),
        (800, 600, 75),
        (800, 600, 85),
        (1024, 768, 60),
        (1024, 768, 70),
        (1024, 768, 75),
        (1024, 768, 85),
        (1280, 1024, 60),
        (1280, 1024, 75),
        (1280, 1024, 85),
        (1366, 768, 60),
        (1920, 1080, 60),
        (1920, 1200, 60),
        (3840, 2160, 30),
        (3840, 2160, 60),
    ]
}

/// Standard mode `i` has the given size.
pub open spec fn same_size(i: int, width: int, height: int) -> bool {
    vesa_table()[i].0 == width && vesa_table()[i].1 == height
}

/// Standard mode `i` is the given one.
pub open spec fn same_mode(i: int, width: int, height: int, refresh: int) -> bool {
    same_size(i, width, height) && vesa_table()[i].2 == refresh
}

/// The distance of two sizes.
pub open spec fn abs_diff(a: int, b: int) -> int {
    if a > b {
        a - b
    } else {
        b - a
    }
}

/// How far the size of standard mode `i` is from the given one.
pub open spec fn distance(i: int, width: int, height: int) -> int {
    abs_diff(vesa_table()[i].0 as int, width) + abs_diff(vesa_table()[i].1 as int, height)
}

/// Standard mode `i` is the best for a display of the given size: the mode
/// itself, else the first of that size, else the first of those nearest in size.
pub open spec fn is_best(i: int, width: int, height: int, refresh: int) -> bool {
    let n = vesa_table().len();
    &&& 0 <= i < n
    &&& if exists|j: int| 0 <= j < n && #[trigger] same_mode(j, width, height, refresh) {
        same_mode(i, width, height, refresh)
    } else if exists|j: int| 0 <= j < n && #[trigger] same_size(j, width, height) {
        same_size(i, width, height) && forall|j: int|
            0 <= j < i ==> !(#[trigger] same_size(j, width, height))
    } else {
        (forall|j: int|
            0 <= j < n ==> distance(i, width, height) <= #[trigger] distance(j, width, height)) && (
        forall|j: int|
            0 <= j < i ==> distance(i, width, height) < #[trigger] distance(j, width, height))
    }
}

/// `modes` is the standard list.
pub open spec fn is_vesa_list(modes: Seq<DrmModeInfo>) -> bool {
    &&& modes.len() == vesa_table().len()
    &&& forall|i: int|
        0 <= i < modes.len() ==> (#[trigger] modes[i]).is_mode(
            vesa_table()[i].0,
            vesa_table()[i].1,
            vesa_table()[i].2,
        )
}

impl StandardModes {
    /// Adds a mode to the end of a list.
    fn push(modes: &mut Vec<DrmModeInfo>, width: u16, height: u16, refresh: u32)
        requires
            width <= 4096,
            height <= 4096,
            refresh <= 200,
        ensures
            final(modes)@.len() == old(modes)@.len() + 1,
            final(modes)@.last().is_mode(width, height, refresh),
            forall|i: int|
                0 <= i < old(modes)@.len() ==> #[trigger] final(modes)@[i] == old(modes)@[i],
    {
        proof {
            lemma_timing_fits(width as int, height as int, refresh as int);
        }
        modes.push(DrmModeInfo::new(width, height, refresh));
    }

    /// The standard modes.
    pub fn vesa_modes() -> (modes: Vec<DrmModeInfo>)
        ensures
            is_vesa_list(modes@),
    {
        let mut m: Vec<DrmModeInfo> = Vec::new();
        StandardModes::push(&mut m, 640, 480, 60);
        StandardModes::push(&mut m, 640, 480, 72);
        StandardModes::push(&mut m, 640, 480, 75);
        StandardModes::push(&mut m, 640, 480, 85);
        StandardModes::push(&mut m, 800, 600, 56);
        StandardModes::push(&mut m, 800, 600, 60);
        StandardModes::push(&mut m, 800, 600, 72);
        StandardModes::push(&mut m, 800, 600, 75);
        StandardModes::push(&mut m, 800, 600, 85);
        StandardModes::push(&mut m, 1024, 768, 60);
        StandardModes::push(&mut m, 1024, 768, 70);
        StandardModes::push(&mut m, 1024, 768, 75);
        StandardModes::push(&mut m, 1024, 768, 85);
        StandardModes::push(&mut m, 1280, 1024, 60);
        StandardModes::push(&mut m, 1280, 1024, 75);
        StandardModes::push(&mut m, 1280, 1024, 85);
        StandardModes::push(&mut m, 1366, 768, 60);
        StandardModes::push(&mut m, 1920, 1080, 60);
        StandardModes::push(&mut m, 1920, 1200, 60);
        StandardModes::push(&mut m, 3840, 2160, 30);
        StandardModes::push(&mut m, 3840, 2160, 60);
        m
    }

    /// The best standard mode for a display of the given size. There always is
    /// one.
    pub fn find_best_mode(width: u32, height: u32, refresh: u32) -> (r: Option<DrmModeInfo>)
        ensures
            r matches Some(m) && exists|i: int| #[trigger]
                is_best(i, width as int, height as int, refresh as int) && m.is_mode(
                    vesa_table()[i].0,
                    vesa_table()[i].1,
                    vesa_table()[i].2,
                ),
    {
        let modes = StandardModes::vesa_modes();
        let mut i: usize = 0;
        while i < modes.len()
            invariant
                i <= modes.len(),
                is_vesa_list(modes@),
                forall|j: int|
                    0 <= j < i ==> !(#[trigger] same_mode(
                        j,
                        width as int,
                        height as int,
                        refresh as int,
                    )),
            decreases modes.len() - i,
        {
            let m = modes[i];
            assert(modes@[i as int].is_mode(
                vesa_table()[i as int].0,
                vesa_table()[i as int].1,
                vesa_table()[i as int].2,
            ));
            if m.hdisplay as u32 == width && m.vdisplay as u32 == height && m.vrefresh == refresh {
                assert(same_mode(i as int, width as int, height as int, refresh as int));
                assert(is_best(i as int, width as int, height as int, refresh as int));
                return Some(m);
            }
            i += 1;
        }
        let mut i: usize = 0;
        while i < modes.len()
            invariant
                i <= modes.len(),
                is_vesa_list(modes@),
                forall|j: int|
                    0 <= j < modes.len() ==> !(#[trigger] same_mode(
                        j,
                        width as int,
                        height as int,
                        refresh as int,
                    )),
                forall|j: int|
                    0 <= j < i ==> !(#[trigger] same_size(j, width as int, height as int)),
            decreases modes.len() - i,
        {
            let m = modes[i];
            assert(modes@[i as int].is_mode(
                vesa_table()[i as int].0,
                vesa_table()[i as int].1,
                vesa_table()[i as int].2,
            ));
            if m.hdisplay as u32 == width && m.vdisplay as u32 == height {
                assert(same_size(i as int, width as int, height as int));
                assert(is_best(i as int, width as int, height as int, refresh as int));
                return Some(m);
            }
            i += 1;
        }
        let mut best: Option<DrmModeInfo> = None;
        let mut best_diff: u64 = u64::MAX;
        let ghost mut at: int = -1;
        let mut i: usize = 0;
        while i < modes.len()
            invariant
                i <= modes.len(),
                is_vesa_list(modes@),
                best is None ==> i == 0 && best_diff == u64::MAX,
                best matches Some(m) ==> 0 <= at < i && m.is_mode(
                    vesa_table()[at].0,
                    vesa_table()[at].1,
                    vesa_table()[at].2,
                ) && best_diff == distance(at, width as int, height as int) && (forall|j: int|
                    0 <= j < at ==> best_diff < #[trigger] distance(
                        j,
                        width as int,
                        height as int,
                    )),
                forall|j: int|
                    0 <= j < i ==> best_diff <= #[trigger] distance(j, width as int, height as int),
            decreases modes.len() - i,
        {
            let m = modes[i];
            assert(modes@[i as int].is_mode(
                vesa_table()[i as int].0,
                vesa_table()[i as int].1,
                vesa_table()[i as int].2,
            ));
            let w_diff: u32 = if m.hdisplay as u32 > width {
                m.hdisplay as u32 - width
            } else {
                width - m.hdisplay as u32
            };
            let h_diff: u32 = if m.vdisplay as u32 > height {
                m.vdisplay as u32 - height
            } else {
                height - m.vdisplay as u32
            };
            let total_diff: u64 = w_diff as u64 + h_diff as u64;
            if total_diff < best_diff {
                best_diff = total_diff;
                best = Some(m);
                proof {
                    at = i as int;
                }
            }
            i += 1;
        }
        proof {
            assert(best is Some);
            assert forall|j: int| 0 <= j < vesa_table().len() implies !(#[trigger] same_mode(
                j,
                width as int,
                height as int,
                refresh as int,
            )) by {
                assert(!same_size(j, width as int, height as int));
            }
            assert(is_best(at, width as int, height as int, refresh as int));
        }
        best
    }
}

/// Checks modes against what the hardware can do.
pub struct ModeValidator;

impl ModeValidator {
    /// Whether a mode can be set on a crtc: 1 to 4096 pixels each way, at most
    /// 240 Hz, and the crtc exists.
    pub fn validate_mode(device: &DrmDevice, mode: &DrmModeInfo, crtc_id: DrmObjectId) -> (r: Result<
        (),
        DriverError,
    >)
        ensures
            r == mode_check(*device, *mode, crtc_id),
    {
        if mode.hdisplay == 0 || mode.vdisplay == 0 {
            return Err(DriverError::Unsupported);
        }
        if mode.hdisplay > 4096 || mode.vdisplay > 4096 {
            return Err(DriverError::Unsupported);
        }
        if mode.vrefresh > 240 {
            return Err(DriverError::Unsupported);
        }
        match device.get_crtc(crtc_id) {
            Some(c) => {
                proof {
                    let i = choose|i: int| #[trigger]
                        crate::drm::device::first_with(device.crtcs@, crtc_id, i) && *c
                            == device.crtcs@[i];
                    assert(device.crtcs@[i].obj_id() == crtc_id);
                }
                Ok(())
            },
            None => Err(DriverError::NotFound),
        }
    }
}

/// The width of the horizontal sync pulse, and of the porches before and after
/// it: eight hundredths of the width, rounded.
pub open spec fn sync_width(width: int) -> int {
    (width * 8 + 50) / 100
}

/// Pixels in a line, blanking included.
pub open spec fn cvt_line(width: int) -> int {
    width + 3 * sync_width(width)
}

/// Lines in a frame, blanking included: a porch of three, a pulse of three, a
/// porch of six.
pub open spec fn cvt_frame(height: int) -> int {
    height + 12
}

/// The totals of the coordinated timing fit their fields.
pub open spec fn cvt_fits(width: int, height: int) -> bool {
    cvt_line(width) <= u16::MAX && cvt_frame(height) <= u16::MAX
}

impl ModeValidator {
    /// Pixels in a line and lines in a frame of the coordinated timing, from
    /// which the pixel clock follows.
    pub fn timing_totals(width: u16, height: u16) -> (r: (u16, u16))
        requires
            cvt_fits(width as int, height as int),
        ensures
            r.0 == cvt_line(width as int),
            r.1 == cvt_frame(height as int),
    {
        let sync: u16 = ((width as u32 * 8 + 50) / 100) as u16;
        (width + 3 * sync, height + 12)
    }

    /// The mode with the coordinated timing and the given pixel clock in kHz.
    pub fn calculate_mode_timing(width: u16, height: u16, refresh: u32, pixel_clock: u32) -> (m:
        DrmModeInfo)
        requires
            cvt_fits(width as int, height as int),
            timing_fits(width as int, height as int, refresh as int),
        ensures
            ({
                let sync = sync_width(width as int);
                &&& m.clock == pixel_clock
                &&& m.hdisplay == width
                &&& m.hsync_start == width + sync
                &&& m.hsync_end == width + 2 * sync
                &&& m.htotal == cvt_line(width as int)
                &&& m.vdisplay == height
                &&& m.vsync_start == height + 3
                &&& m.vsync_end == height + 6
                &&& m.vtotal == cvt_frame(height as int)
                &&& m.flags == PHSYNC + PVSYNC
                &&& m.type_ == DRIVER
                &&& exists|plain: DrmModeInfo| #[trigger]
                    plain.is_mode(width, height, refresh) && m == (DrmModeInfo {
                        clock: m.clock,
                        hsync_start: m.hsync_start,
                        hsync_end: m.hsync_end,
                        htotal: m.htotal,
                        vsync_start: m.vsync_start,
                        vsync_end: m.vsync_end,
                        vtotal: m.vtotal,
                        flags: m.flags,
                        type_: m.type_,
                        ..plain
                    })
            }),
    {
        let sync: u16 = ((width as u32 * 8 + 50) / 100) as u16;
        let (htotal, vtotal) = ModeValidator::timing_totals(width, height);
        let mut mode = DrmModeInfo::new(width, height, refresh);
        let ghost plain = mode;
        mode.clock = pixel_clock;
        mode.htotal = htotal;
        mode.vtotal = vtotal;
        mode.hsync_start = width + sync;
        mode.hsync_end = width + sync + sync;
        mode.vsync_start = height + 3;
        mode.vsync_end = height + 6;
        mode.flags = PHSYNC + PVSYNC;
        mode.type_ = DRIVER;
        assert(plain.is_mode(width, height, refresh));
        mode
    }
}

/// What checking a mode for a crtc says.
pub open spec fn mode_check(device: DrmDevice, mode: DrmModeInfo, crtc_id: DrmObjectId) -> Result<
    (),
    DriverError,
> {
    if !(1 <= mode.hdisplay <= 4096 && 1 <= mode.vdisplay <= 4096 && mode.vrefresh <= 240) {
        Err(DriverError::Unsupported)
    } else if none_with(device.crtcs@, crtc_id) {
        Err(DriverError::NotFound)
    } else {
        Ok(())
    }
}

/// What checking one entry of a state says: a crtc that is switched on takes a
/// mode that can be set on it, and one that is switched off only has to exist.
pub open spec fn entry_check(
    device: DrmDevice,
    entry: (DrmObjectId, DrmModeInfo, bool),
) -> Result<(), DriverError> {
    if entry.2 {
        mode_check(device, entry.1, entry.0)
    } else if none_with(device.crtcs@, entry.0) {
        Err(DriverError::NotFound)
    } else {
        Ok(())
    }
}

/// Every crtc of the state can be switched as it says, and every plane of it
/// exists.
pub open spec fn test_passes(device: DrmDevice, state: DrmAtomicState) -> bool {
    &&& forall|i: int|
        0 <= i < state.crtc_states@.len() ==> entry_check(
            device,
            #[trigger] state.crtc_states@[i],
        ) is Ok
    &&& forall|i: int|
        0 <= i < state.plane_states@.len() ==> !none_with(
            device.planes@,
            (#[trigger] state.plane_states@[i]).plane_id,
        )
}

/// Builds and commits atomic states.
pub struct AtomicModeSet;

/// The state of a plane that shows a whole framebuffer of the given size.
pub open spec fn scaled_plane(
    plane_id: DrmObjectId,
    crtc_id: DrmObjectId,
    fb_id: DrmObjectId,
    src_width: u32,
    src_height: u32,
    dst_x: i32,
    dst_y: i32,
    dst_width: u32,
    dst_height: u32,
) -> DrmPlaneState {
    DrmPlaneState {
        plane_id,
        crtc_id: Some(crtc_id),
        fb_id: Some(fb_id),
        crtc_x: dst_x,
        crtc_y: dst_y,
        crtc_w: dst_width,
        crtc_h: dst_height,
        src_x: 0,
        src_y: 0,
        src_w: src_width << 16,
        src_h: src_height << 16,
    }
}

impl AtomicModeSet {
    /// Starts a state that changes nothing.
    pub fn begin() -> (s: DrmAtomicState)
        ensures
            s.crtc_states@ == Seq::<(DrmObjectId, DrmModeInfo, bool)>::empty(),
            s.connector_states@ == Seq::<(DrmObjectId, Option<DrmObjectId>)>::empty(),
            s.plane_states@ == Seq::<DrmPlaneState>::empty(),
    {
        DrmAtomicState::new()
    }

    /// Sets the mode of a crtc, or switches it off.
    pub fn set_crtc_mode(
        state: &mut DrmAtomicState,
        crtc_id: DrmObjectId,
        mode: Option<DrmModeInfo>,
    )
        ensures
            final(state).crtc_states@.len() == old(state).crtc_states@.len() + 1,
            final(state).crtc_states@.drop_last() == old(state).crtc_states@,
            final(state).crtc_states@.last().0 == crtc_id,
            match mode {
                Some(m) => final(state).crtc_states@.last().1 == m
                    && final(state).crtc_states@.last().2,
                None => final(state).crtc_states@.last().1.is_mode(0, 0, 0)
                    && !final(state).crtc_states@.last().2,
            },
            final(state).connector_states == old(state).connector_states,
            final(state).plane_states == old(state).plane_states,
    {
        match mode {
            Some(m) => {
                state.add_crtc(crtc_id, m, true);
            },
            None => {
                proof {
                    lemma_timing_fits(0, 0, 0);
                }
                let dummy_mode = DrmModeInfo::new(0, 0, 0);
                state.add_crtc(crtc_id, dummy_mode, false);
            },
        }
        assert(state.crtc_states@.drop_last() =~= old(state).crtc_states@);
    }

    /// Puts a crtc behind a connector.
    pub fn set_connector_crtc(
        state: &mut DrmAtomicState,
        connector_id: DrmObjectId,
        crtc_id: Option<DrmObjectId>,
    )
        ensures
            final(state).connector_states@ == old(state).connector_states@.push(
                (connector_id, crtc_id),
            ),
            final(state).crtc_states == old(state).crtc_states,
            final(state).plane_states == old(state).plane_states,
    {
        state.add_connector(connector_id, crtc_id);
    }

    /// Places a plane.
    pub fn set_plane(
        state: &mut DrmAtomicState,
        plane_id: DrmObjectId,
        crtc_id: Option<DrmObjectId>,
        fb_id: Option<DrmObjectId>,
        crtc_x: i32,
        crtc_y: i32,
        crtc_w: u32,
        crtc_h: u32,
        src_x: u32,
        src_y: u32,
        src_w: u32,
        src_h: u32,
    )
        ensures
            final(state).plane_states@ == old(state).plane_states@.push(
                (DrmPlaneState {
                    plane_id,
                    crtc_id,
                    fb_id,
                    crtc_x,
                    crtc_y,
                    crtc_w,
                    crtc_h,
                    src_x,
                    src_y,
                    src_w,
                    src_h,
                }),
            ),
            final(state).crtc_states == old(state).crtc_states,
            final(state).connector_states == old(state).connector_states,
    {
        state.add_plane(
            DrmPlaneState {
                plane_id,
                crtc_id,
                fb_id,
                crtc_x,
                crtc_y,
                crtc_w,
                crtc_h,
                src_x,
                src_y,
                src_w,
                src_h,
            },
        );
    }

    /// Places a plane that shows a whole framebuffer, scaled. Refused if either
    /// is empty.
    pub fn set_plane_scaling(
        state: &mut DrmAtomicState,
        plane_id: DrmObjectId,
        crtc_id: DrmObjectId,
        fb_id: DrmObjectId,
        src_width: u32,
        src_height: u32,
        dst_x: i32,
        dst_y: i32,
        dst_width: u32,
        dst_height: u32,
    ) -> (r: Result<(), DriverError>)
        ensures
            r == (if src_width == 0 || src_height == 0 || dst_width == 0 || dst_height == 0 {
                Err(DriverError::InvalidParameter)
            } else {
                Ok(())
            }),
            final(state).plane_states@ == (if r is Ok {
                old(state).plane_states@.push(
                    scaled_plane(
                        plane_id,
                        crtc_id,
                        fb_id,
                        src_width,
                        src_height,
                        dst_x,
                        dst_y,
                        dst_width,
                        dst_height,
                    ),
                )
            } else {
                old(state).plane_states@
            }),
            final(state).crtc_states == old(state).crtc_states,
            final(state).connector_states == old(state).connector_states,
    {
        if src_width == 0 || src_height == 0 || dst_width == 0 || dst_height == 0 {
            return Err(DriverError::InvalidParameter);
        }
        state.add_plane(
            DrmPlaneState {
                plane_id,
                crtc_id: Some(crtc_id),
                fb_id: Some(fb_id),
                crtc_x: dst_x,
                crtc_y: dst_y,
                crtc_w: dst_width,
                crtc_h: dst_height,
                src_x: 0,
                src_y: 0,
                src_w: src_width << 16,
                src_h: src_height << 16,
            },
        );
        Ok(())
    }

    /// Applies a state to the device.
    pub fn commit(
        device: &mut DrmDevice,
        state: &DrmAtomicState,
        flags: u32,
        hw: Option<HardwareFb>,
    ) -> (out: CommitOutcome)
        ensures
            exists|n: int| #[trigger] committed(*old(device), *final(device), *state, hw, out, n),
    {
        device.atomic_commit(state, flags, hw)
    }

    /// Whether the device has a crtc.
    fn crtc_exists(device: &DrmDevice, crtc_id: DrmObjectId) -> (r: Result<(), DriverError>)
        ensures
            r == (if none_with(device.crtcs@, crtc_id) {
                Err::<(), DriverError>(DriverError::NotFound)
            } else {
                Ok(())
            }),
    {
        match device.get_crtc(crtc_id) {
            Some(c) => {
                proof {
                    let i = choose|i: int| #[trigger]
                        crate::drm::device::first_with(device.crtcs@, crtc_id, i) && *c
                            == device.crtcs@[i];
                    assert(device.crtcs@[i].obj_id() == crtc_id);
                }
                Ok(())
            },
            None => Err(DriverError::NotFound),
        }
    }

    /// Whether a state would be applied: every crtc exists and, where it is
    /// switched on, can take its mode, and every plane exists. The first objection
    /// counts, crtcs before planes.
    pub fn test(device: &DrmDevice, state: &DrmAtomicState) -> (r: Result<(), DriverError>)
        ensures
            r is Ok <==> test_passes(*device, *state),
            r matches Err(e) ==> {
                ||| exists|i: int|
                    0 <= i < state.crtc_states@.len() && entry_check(*device, #[trigger] state.crtc_states@[i]) == Err::<(), DriverError>(e) && forall|j: int|
                        0 <= j < i ==> entry_check(*device, #[trigger] state.crtc_states@[j]) is Ok
                ||| e == DriverError::NotFound && forall|i: int|
                    0 <= i < state.crtc_states@.len() ==> entry_check(*device, #[trigger] state.crtc_states@[i]) is Ok
            },
    {
        let mut i: usize = 0;
        while i < state.crtc_states.len()
            invariant
                i <= state.crtc_states.len(),
                forall|j: int|
                    0 <= j < i ==> entry_check(*device, #[trigger] state.crtc_states@[j]) is Ok,
            decreases state.crtc_states.len() - i,
        {
            let s = &state.crtc_states[i];
            let checked = if s.2 {
                ModeValidator::validate_mode(device, &s.1, s.0)
            } else {
                Self::crtc_exists(device, s.0)
            };
            match checked {
                Ok(()) => {},
                Err(e) => {
                    assert(entry_check(*device, state.crtc_states@[i as int]) is Err);
                    return Err(e);
                },
            }
            i += 1;
        }
        let mut k: usize = 0;
        while k < state.plane_states.len()
            invariant
                k <= state.plane_states.len(),
                forall|j: int|
                    0 <= j < state.crtc_states@.len() ==> entry_check(*device, #[trigger] state.crtc_states@[j]) is Ok,
                forall|j: int|
                    0 <= j < k ==> !none_with(
                        device.planes@,
                        (#[trigger] state.plane_states@[j]).plane_id,
                    ),
            decreases state.plane_states.len() - k,
        {
            let id = state.plane_states[k].plane_id;
            match device.get_plane(id) {
                Some(p) => {
                    proof {
                        let q = choose|q: int| #[trigger]
                            crate::drm::device::first_with(device.planes@, id, q) && *p
                                == device.planes@[q];
                        assert(device.planes@[q].obj_id() == id);
                    }
                },
                None => {
                    assert(none_with(device.planes@, state.plane_states@[k as int].plane_id));
                    return Err(DriverError::NotFound);
                },
            }
            k += 1;
        }
        Ok(())
    }
}

/// Sets and reads the mode of the whole display.
pub struct ModeSet;

/// `st` sets mode `m` on the first crtc of `d`, puts that crtc behind the first
/// connector, and spreads the first plane over the whole display.
pub open spec fn is_display_state(
    d: DrmDevice,
    st: DrmAtomicState,
    m: DrmModeInfo,
    width: u32,
    height: u32,
) -> bool {
    let crtc = d.crtcs@[0].id;
    &&& st.crtc_states@ == seq![(crtc, m, true)]
    &&& st.connector_states@ == seq![(d.connectors@[0].id, Some(crtc))]
    &&& st.plane_states@ == seq![
        DrmPlaneState {
            plane_id: d.planes@[0].id,
            crtc_id: Some(crtc),
            fb_id: None,
            crtc_x: 0,
            crtc_y: 0,
            crtc_w: width,
            crtc_h: height,
            src_x: 0,
            src_y: 0,
            src_w: width << 16,
            src_h: height << 16,
        },
    ]
}

/// The display of device `a` was asked for a size, which left it as `b`: the
/// best mode was committed, or nothing happened for want of a crtc, a connector
/// or a plane.
pub open spec fn display_set(
    a: DrmDevice,
    b: DrmDevice,
    width: u32,
    height: u32,
    refresh: u32,
    hw: Option<HardwareFb>,
    out: CommitOutcome,
) -> bool {
    if a.crtcs@.len() > 0 && a.connectors@.len() > 0 && a.planes@.len() > 0 {
        exists|i: int, st: DrmAtomicState, n: int|
            #![trigger is_best(i, width as int, height as int, refresh as int), committed(a, b, st, hw, out, n)]
            is_best(i, width as int, height as int, refresh as int) && st.crtc_states@.len() == 1
                && st.crtc_states@[0].1.is_mode(
                vesa_table()[i].0,
                vesa_table()[i].1,
                vesa_table()[i].2,
            ) && is_display_state(a, st, st.crtc_states@[0].1, width, height) && committed(
                a,
                b,
                st,
                hw,
                out,
                n,
            )
    } else {
        &&& out.result == Err::<(), DriverError>(DriverError::NotFound)
        &&& b == a
        &&& out.copies@.len() == 0
    }
}

impl ModeSet {
    /// Sets the best mode for a display of the given size. Refused if the device
    /// lacks a crtc, a connector or a plane.
    pub fn set_display_mode(
        device: &mut DrmDevice,
        width: u32,
        height: u32,
        refresh: u32,
        hw: Option<HardwareFb>,
    ) -> (out: CommitOutcome)
        ensures
            display_set(*old(device), *final(device), width, height, refresh, hw, out),
    {
        let mode = match StandardModes::find_best_mode(width, height, refresh) {
            Some(m) => m,
            None => {
                return CommitOutcome { result: Err(DriverError::NotFound), copies: Vec::new() };
            },
        };
        if device.crtcs.len() == 0 || device.connectors.len() == 0 || device.planes.len() == 0 {
            return CommitOutcome { result: Err(DriverError::NotFound), copies: Vec::new() };
        }
        let crtc_id = device.crtcs[0].id();
        let connector_id = device.connectors[0].id();
        let primary_plane_id = device.planes[0].id();
        let mut state = AtomicModeSet::begin();
        AtomicModeSet::set_crtc_mode(&mut state, crtc_id, Some(mode));
        AtomicModeSet::set_connector_crtc(&mut state, connector_id, Some(crtc_id));
        AtomicModeSet::set_plane(
            &mut state,
            primary_plane_id,
            Some(crtc_id),
            None,
            0,
            0,
            width,
            height,
            0,
            0,
            width << 16,
            height << 16,
        );
        proof {
            assert(state.crtc_states@ =~= seq![(crtc_id, mode, true)]);
            assert(state.connector_states@ =~= seq![(connector_id, Some(crtc_id))]);
            assert(is_display_state(*device, state, mode, width, height));
        }
        AtomicModeSet::commit(device, &state, 0, hw)
    }

    /// The mode of the display: width, height, refresh rate.
    pub fn get_display_mode(device: &DrmDevice) -> (r: Option<(u32, u32, u32)>)
        ensures
            r == (if device.crtcs@.len() > 0 {
                match device.crtcs@[0].mode {
                    Some(m) => Some((m.hdisplay as u32, m.vdisplay as u32, m.vrefresh)),
                    None => None,
                }
            } else {
                None
            }),
    {
        if device.crtcs.len() > 0 {
            if let Some(m) = &device.crtcs[0].mode {
                return Some((m.hdisplay as u32, m.vdisplay as u32, m.vrefresh));
            }
        }
        None
    }

    /// Every mode of every connector, in order.
    pub fn list_modes(device: &DrmDevice) -> (r: Vec<(u32, u32, u32)>)
        ensures
            r@ == modes_listed(device.connectors@, device.connectors@.len() as int),
    {
        let mut modes: Vec<(u32, u32, u32)> = Vec::new();
        let mut i: usize = 0;
        while i < device.connectors.len()
            invariant
                i <= device.connectors.len(),
                modes@ == modes_listed(device.connectors@, i as int),
            decreases device.connectors.len() - i,
        {
            let ghost before = modes@;
            let list = &device.connectors[i].modes;
            let mut k: usize = 0;
            assert(before + list@.take(0).map_values(|m: DrmModeInfo| mode_triple(m)) =~= before);
            while k < list.len()
                invariant
                    k <= list.len(),
                    modes@ == before + list@.take(k as int).map_values(
                        |m: DrmModeInfo| mode_triple(m),
                    ),
                decreases list.len() - k,
            {
                let m = &list[k];
                modes.push((m.hdisplay as u32, m.vdisplay as u32, m.vrefresh));
                k += 1;
                assert(modes@ =~= before + list@.take(k as int).map_values(
                    |m: DrmModeInfo| mode_triple(m),
                ));
            }
            assert(list@.take(list.len() as int) =~= list@);
            i += 1;
        }
        modes
    }
}

/// Width, height and refresh rate of a mode.
pub open spec fn mode_triple(m: DrmModeInfo) -> (u32, u32, u32) {
    (m.hdisplay as u32, m.vdisplay as u32, m.vrefresh)
}

/// The modes of the first `n` connectors, in order.
pub open spec fn modes_listed(
    connectors: Seq<crate::drm::objects::DrmConnector>,
    n: int,
) -> Seq<(u32, u32, u32)>
    decreases n,
{
    if n <= 0 {
        Seq::empty()
    } else {
        modes_listed(connectors, n - 1) + connectors[n - 1].modes@.map_values(
            |m: DrmModeInfo| mode_triple(m),
        )
    }
}

} // verus!
