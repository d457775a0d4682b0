//! The console on top of the display device: eight virtual terminals, shown
//! through the device where that is ours to drive, and on the plain surface
//! otherwise.
use crate::drm::auth::{create_session, set_master, AuthManager, DrmAuthToken};
use crate::drm::device::{
    committed, init_drm, is_set_up, CommitOutcome, DrmDevice, HardwareFb, PlaneCopy,
};
use crate::drm::framebuffer::{row_bytes, DrmDumbBuffer, DrmFormat, DrmFramebuffer};
use crate::drm::modes::{display_set, AtomicModeSet, ModeSet};
use crate::drm::objects::{DrmAtomicState, DrmObjectId, DrmPlaneState, IdCounter};
use crate::bytes::{le32, push_u32, read_u32, u32_at};
use crate::framebuffer::{boot_usable, BootFramebuffer, Framebuffer};
use crate::message::{padded, Message};
use crate::screen::{surface_ok, Screen};
use vstd::utf8::valid_utf8;
use crate::terminal::{uniform, Terminal, VirtualTerminal, TEXT_COLOR};
use crate::DriverError;
use vstd::prelude::*;

verus! {

/// What the console can do.
#[derive(Debug, Clone, Copy, PartialEq, Eq, Structural)]
pub struct ConsoleCapabilities {
    pub max_width: u32,
    pub max_height: u32,
    pub preferred_depth: u32,
    pub multiple_modes: bool,
    pub hardware_cursor: bool,
    pub double_buffering: bool,
}

impl Default for ConsoleCapabilities {
    fn default() -> (c: ConsoleCapabilities)
        ensures
            c == (ConsoleCapabilities {
                max_width: 1920,
                max_height: 1080,
                preferred_depth: 32,
                multiple_modes: true,
                hardware_cursor: false,
                double_buffering: true,
            }),
    {
        ConsoleCapabilities {
            max_width: 1920,
            max_height: 1080,
            preferred_depth: 32,
            multiple_modes: true,
            hardware_cursor: false,
            double_buffering: true,
        }
    }
}

/// The display subsystem that the console drives.
pub struct DrmContext {
    pub device: DrmDevice,
    pub auth: AuthManager,
    /// Ids of objects.
    pub ids: IdCounter,
    /// Magic numbers of sessions.
    pub magics: IdCounter,
    /// Handles of buffers.
    pub handles: IdCounter,
    /// The surface that is scanned out.
    pub hw: Option<HardwareFb>,
    /// Whether the mode-setting driver found a display.
    pub display_found: bool,
}

/// The console: its terminals, and the objects that it drives.
pub struct DrmConsole {
    pub capabilities: ConsoleCapabilities,
    pub current_mode: Option<(u32, u32, u32)>,
    pub framebuffer: Framebuffer,
    pub crtc_id: Option<DrmObjectId>,
    pub connector_id: Option<DrmObjectId>,
    pub primary_plane_id: Option<DrmObjectId>,
    pub virtual_terminals: Vec<VirtualTerminal>,
    pub active_vt: usize,
    pub drm_enabled: bool,
    pub master_session: Option<DrmAuthToken>,
}

/// Number of terminals.
pub const VT_COUNT: usize = 8;

/// A size for which a buffer of 32 bits per pixel can be described.
pub open spec fn buffer_ok(width: u32, height: u32) -> bool {
    &&& width * 32 + 7 <= u32::MAX
    &&& height * row_bytes(width as int, 32) <= u32::MAX
}

/// Whether a buffer of 32 bits per pixel can be described.
pub fn buffer_fits(width: u32, height: u32) -> (r: bool)
    ensures
        r == buffer_ok(width, height),
{
    let bits: u64 = width as u64 * 32 + 7;
    if bits > 0xffff_ffff {
        return false;
    }
    let pitch: u64 = bits / 8;
    assert(0 <= height * pitch <= 0xffff_ffff * 0x2000_0000) by (nonlinear_arith)
        requires
            height <= 0xffff_ffff,
            0 <= pitch <= 0x2000_0000,
    ;
    height as u64 * pitch <= 0xffff_ffff
}

pub open spec fn mode_ok(mode: Option<(u32, u32, u32)>) -> bool {
    mode matches Some(m) ==> buffer_ok(m.0, m.1)
}

/// The pixel of each visible character of the first `k` cells, row by row.
pub open spec fn cells_shown(s: Screen, t: Terminal, k: int) -> Screen
    decreases k,
{
    if k <= 0 || t.cols() <= 0 {
        s
    } else {
        let y = (k - 1) / t.cols();
        let x = (k - 1) % t.cols();
        let before = cells_shown(s, t, k - 1);
        if 0x21 <= t.chars[y][x] <= 0x7e {
            before.set_pixel(x * 8, y * 16, t.colors[y][x])
        } else {
            before
        }
    }
}

/// The first `k` pixels of the cursor's block, row by row.
pub open spec fn block_shown(s: Screen, x: int, y: int, k: int) -> Screen
    decreases k,
{
    if k <= 0 {
        s
    } else {
        block_shown(s, x, y, k - 1).set_pixel(x + (k - 1) % 8, y + (k - 1) / 8, 0xFFFFFF)
    }
}

/// A terminal on the plain surface: a black screen, a mark for each character
/// and a block for the cursor.
pub open spec fn shown(s: Screen, t: Terminal) -> Screen {
    block_shown(
        cells_shown(s.clear(0), t, t.rows() * t.cols()),
        t.cursor_x * 8,
        t.cursor_y * 16,
        128,
    )
}

impl DrmConsole {
    /// The terminals are in order, and one of them is shown where there are any.
    pub open spec fn wf(&self) -> bool {
        &&& self.virtual_terminals@.len() > 0 ==> self.has_terminal()
        &&& self.framebuffer.inv()
        &&& forall|i: int|
            0 <= i < self.virtual_terminals@.len() ==> (#[trigger] self.virtual_terminals@[i])@.wf()
    }

    /// There is a terminal to show. A console that was not started has none.
    pub open spec fn has_terminal(&self) -> bool {
        self.active_vt < self.virtual_terminals@.len()
    }

    /// Every size that the console holds can be backed by a buffer.
    pub open spec fn modes_ok(&self) -> bool {
        &&& mode_ok(self.current_mode)
        &&& forall|i: int|
            0 <= i < self.virtual_terminals@.len() ==> mode_ok(
                (#[trigger] self.virtual_terminals@[i]).mode,
            )
    }

    /// The terminal that is shown.
    pub open spec fn active(&self) -> VirtualTerminal {
        self.virtual_terminals@[self.active_vt as int]
    }

    /// The size that the shown terminal is drawn at.
    pub open spec fn shown_mode(&self) -> Option<(u32, u32, u32)> {
        if self.active().mode is Some {
            self.active().mode
        } else {
            self.current_mode
        }
    }

    /// A console that was not started: it has no terminals.
    pub fn at_boot() -> (c: DrmConsole)
        ensures
            c.wf(),
            c.modes_ok(),
            c.virtual_terminals@.len() == 0,
            is_untouched(c),
    {
        DrmConsole {
            capabilities: ConsoleCapabilities::default(),
            current_mode: None,
            framebuffer: Framebuffer::new(),
            crtc_id: None,
            connector_id: None,
            primary_plane_id: None,
            virtual_terminals: Vec::new(),
            active_vt: 0,
            drm_enabled: false,
            master_session: None,
        }
    }

    /// A console with its terminals at 1024 by 768 pixels, the first of them
    /// active.
    pub fn new() -> (c: DrmConsole)
        ensures
            is_new(c),
    {
        let mut vts: Vec<VirtualTerminal> = Vec::new();
        let mut i: usize = 0;
        while i < VT_COUNT
            invariant
                i <= VT_COUNT,
                vts@.len() == i,
                forall|k: int|
                    0 <= k < i ==> {
                        let t = #[trigger] vts@[k];
                        &&& t@ == (Terminal {
                            chars: uniform(48, 128, 0x20),
                            colors: uniform(48, 128, TEXT_COLOR),
                            cursor_x: 0,
                            cursor_y: 0,
                            dirty: true,
                        })
                        &&& t@.wf()
                        &&& t.id == k
                        &&& t.active == (k == 0)
                        &&& t.framebuffer_id is None
                        &&& t.mode is None
                    },
            decreases VT_COUNT - i,
        {
            let mut t = VirtualTerminal::new(i as u32, 1024, 768);
            t.active = i == 0;
            vts.push(t);
            i = i + 1;
        }
        DrmConsole {
            capabilities: ConsoleCapabilities::default(),
            current_mode: None,
            framebuffer: Framebuffer::new(),
            crtc_id: None,
            connector_id: None,
            primary_plane_id: None,
            virtual_terminals: vts,
            active_vt: 0,
            drm_enabled: false,
            master_session: None,
        }
    }
}

/// Shows a terminal on the plain surface.
fn render_vt_to_legacy(fb: &mut Framebuffer, vt: &VirtualTerminal)
    requires
        old(fb).inv(),
        vt@.wf(),
    ensures
        final(fb).inv(),
        final(fb)@ == shown(old(fb)@, vt@),
{
    fb.clear(0);
    let ghost blank = fb@;
    let ghost t = vt@;
    let rows = vt.char_buffer.len();
    let mut y: usize = 0;
    while y < rows
        invariant
            t == vt@,
            t.wf(),
            rows == t.rows(),
            y <= rows,
            fb.inv(),
            fb@ == cells_shown(blank, t, y * t.cols()),
        decreases rows - y,
    {
        let row = &vt.char_buffer[y];
        let colors = &vt.color_buffer[y];
        let cols = row.len();
        assert(row@ == t.chars[y as int] && colors@ == t.colors[y as int]);
        let mut x: usize = 0;
        while x < cols
            invariant
                t == vt@,
                t.wf(),
                rows == t.rows(),
                y < rows,
                x <= cols,
                cols == t.cols(),
                row@ == t.chars[y as int],
                colors@ == t.colors[y as int],
                row@.len() == cols,
                colors@.len() == cols,
                fb.inv(),
                fb@ == cells_shown(blank, t, y * cols + x),
            decreases cols - x,
        {
            let c = row[x];
            proof {
                crate::grid::lemma_word(y * cols + x, y as int, x as int, cols as int);
                assert(0 <= y * cols) by (nonlinear_arith);
            }
            if c >= 0x21 && c <= 0x7e {
                fb.set_pixel(x * 8, y * 16, colors[x]);
            }
            x = x + 1;
        }
        assert(y * cols + cols == (y + 1) * cols) by (nonlinear_arith);
        y = y + 1;
    }
    render_cursor(fb, vt.cursor_x * 8, vt.cursor_y * 16);
}

/// Draws the cursor's block.
fn render_cursor(fb: &mut Framebuffer, x: usize, y: usize)
    requires
        old(fb).inv(),
        x + 8 <= usize::MAX,
        y + 16 <= usize::MAX,
    ensures
        final(fb).inv(),
        final(fb)@ == block_shown(old(fb)@, x as int, y as int, 128),
{
    let ghost before = fb@;
    let mut k: usize = 0;
    while k < 128
        invariant
            k <= 128,
            x + 8 <= usize::MAX,
            y + 16 <= usize::MAX,
            fb.inv(),
            fb@ == block_shown(before, x as int, y as int, k as int),
        decreases 128 - k,
    {
        fb.set_pixel(x + k % 8, y + k / 8, 0xFFFFFF);
        k = k + 1;
    }
}

/// A framebuffer over a fresh buffer was registered under `id`, which made the
/// subsystem `a` into `b`.
pub open spec fn framebuffer_added(
    a: DrmContext,
    b: DrmContext,
    width: u32,
    height: u32,
    id: DrmObjectId,
) -> bool {
    let fb = b.device.framebuffers@[id.0];
    &&& id.0 == a.ids.next
    &&& fb.id == id
    &&& fb.width == width
    &&& fb.height == height
    &&& fb.pitch == row_bytes(width as int, 32)
    &&& fb.format == DrmFormat::Xrgb8888
    &&& fb.modifier == 0
    &&& fb.handles@ == seq![a.handles.next, 0u32, 0, 0]
    &&& fb.offsets@ == seq![0u32, 0, 0, 0]
    &&& fb.pitches@ == seq![fb.pitch, 0u32, 0, 0]
    &&& fb.physical_addresses@ == seq![0u64, 0, 0, 0]
    &&& b.device.framebuffers@ == a.device.framebuffers@.insert(id.0, fb)
    &&& b.device == (DrmDevice { framebuffers: b.device.framebuffers, ..a.device })
    &&& b.ids.next == a.ids.next + 1
    &&& b.handles.next == crate::bo::wrap_next(a.handles.next)
    &&& b == (DrmContext { device: b.device, ids: b.ids, handles: b.handles, ..a })
}

/// The planes that show a framebuffer of the given size over the whole display
/// of a crtc.
pub open spec fn whole_display(
    plane_id: DrmObjectId,
    crtc_id: Option<DrmObjectId>,
    mode: Option<(u32, u32, u32)>,
    fb_id: DrmObjectId,
) -> Seq<DrmPlaneState> {
    match (crtc_id, mode) {
        (Some(crtc), Some(m)) => seq![
            DrmPlaneState {
                plane_id,
                crtc_id: Some(crtc),
                fb_id: Some(fb_id),
                crtc_x: 0,
                crtc_y: 0,
                crtc_w: m.0,
                crtc_h: m.1,
                src_x: 0,
                src_y: 0,
                src_w: m.0 << 16,
                src_h: m.1 << 16,
            },
        ],
        _ => Seq::empty(),
    }
}

/// Framebuffer `fb_id` was put on the display, where the console has a plane.
pub open spec fn presented(
    c: DrmConsole,
    fb_id: DrmObjectId,
    a: DrmDevice,
    b: DrmDevice,
    hw: Option<HardwareFb>,
    out: CommitOutcome,
) -> bool {
    match c.primary_plane_id {
        None => b == a && out.result is Ok && out.copies@.len() == 0,
        Some(plane_id) => exists|st: DrmAtomicState, n: int| #[trigger]
            committed(a, b, st, hw, out, n) && st.crtc_states@.len() == 0
                && st.connector_states@.len() == 0 && st.plane_states@ == whole_display(
                plane_id,
                c.crtc_id,
                c.shown_mode(),
                fb_id,
            ),
    }
}

/// The console with another framebuffer and state for its active terminal.
pub open spec fn with_active(
    a: DrmConsole,
    b: DrmConsole,
    fb_id: Option<DrmObjectId>,
    dirty: bool,
) -> bool {
    &&& b.virtual_terminals@ == a.virtual_terminals@.update(
        a.active_vt as int,
        VirtualTerminal { framebuffer_id: fb_id, dirty, ..a.active() },
    )
    &&& b == (DrmConsole {
        virtual_terminals: b.virtual_terminals,
        framebuffer: b.framebuffer,
        ..a
    })
}

/// Bringing the display up to date made the console `a` into `b` and the
/// subsystem `da` into `db`. Nothing is done where nothing has changed. Without
/// the device, the terminal is drawn on the plain surface. With it, the
/// terminal gets a framebuffer when it first needs one and has a size, and the
/// framebuffer is put on the display; where that fails, the terminal stays to be
/// shown.
pub open spec fn updated(
    a: DrmConsole,
    da: DrmContext,
    b: DrmConsole,
    db: DrmContext,
    out: CommitOutcome,
) -> bool {
    let vt = a.active();
    if !a.drm_enabled {
        &&& with_active(a, b, vt.framebuffer_id, false)
        &&& b.framebuffer@ == (if vt.dirty {
            shown(a.framebuffer@, vt@)
        } else {
            a.framebuffer@
        })
        &&& db == da
        &&& out.result is Ok
        &&& out.copies@.len() == 0
    } else if !vt.dirty {
        b == a && db == da && out.result is Ok && out.copies@.len() == 0
    } else {
        &&& b.framebuffer == a.framebuffer
        &&& match (vt.framebuffer_id, a.shown_mode()) {
            (None, None) => {
                &&& with_active(a, b, None, false)
                &&& db == da
                &&& out.result is Ok
                &&& out.copies@.len() == 0
            },
            (None, Some(m)) => {
                let id = DrmObjectId(da.ids.next);
                exists|dc: DrmContext|
                    {
                        &&& #[trigger] framebuffer_added(da, dc, m.0, m.1, id)
                        &&& presented(a, id, dc.device, db.device, da.hw, out)
                        &&& db == (DrmContext { device: db.device, ..dc })
                        &&& with_active(a, b, Some(id), out.result is Err)
                    }
            },
            (Some(id), _) => {
                &&& presented(a, id, da.device, db.device, da.hw, out)
                &&& db == (DrmContext { device: db.device, ..da })
                &&& with_active(a, b, Some(id), out.result is Err)
            },
        }
    }
}

impl DrmConsole {
    /// Registers a framebuffer over a fresh buffer. Not found while the device
    /// is not ours to drive.
    pub fn create_console_framebuffer(
        &mut self,
        drm: &mut DrmContext,
        width: u32,
        height: u32,
    ) -> (r: Result<DrmObjectId, DriverError>)
        requires
            old(self).drm_enabled ==> buffer_ok(width, height) && old(drm).ids.next < u32::MAX,
        ensures
            *final(self) == *old(self),
            !old(self).drm_enabled ==> r == Err::<DrmObjectId, DriverError>(DriverError::NotFound)
                && *final(drm) == *old(drm),
            old(self).drm_enabled ==> (r matches Ok(id) && framebuffer_added(
                *old(drm),
                *final(drm),
                width,
                height,
                id,
            )),
    {
        if !self.drm_enabled {
            return Err(DriverError::NotFound);
        }
        let mut buffer = match DrmDumbBuffer::new(width, height, 32, &mut drm.handles) {
            Ok(b) => b,
            Err(e) => {
                return Err(e);
            },
        };
        let _ = buffer.map();
        let fb = DrmFramebuffer::new(
            width,
            height,
            DrmFormat::Xrgb8888,
            buffer.handle,
            buffer.pitch,
            &mut drm.ids,
        );
        let id = drm.device.add_framebuffer(fb);
        Ok(id)
    }

    /// Draws the active terminal on the plain surface, where it has changed.
    fn update_legacy_display(&mut self)
        requires
            old(self).wf(),
            old(self).has_terminal(),
        ensures
            final(self).wf(),
            final(self).has_terminal(),
            with_active(*old(self), *final(self), old(self).active().framebuffer_id, false),
            final(self).framebuffer@ == (if old(self).active().dirty {
                shown(old(self).framebuffer@, old(self).active()@)
            } else {
                old(self).framebuffer@
            }),
    {
        let at = self.active_vt;
        if self.virtual_terminals[at].dirty {
            assert(self.virtual_terminals@[at as int]@.wf());
            render_vt_to_legacy(&mut self.framebuffer, &self.virtual_terminals[at]);
        }
        let fb_id = self.virtual_terminals[at].framebuffer_id;
        self.settle(fb_id, false);
    }

    /// Records the framebuffer and the state of the active terminal.
    fn settle(&mut self, fb_id: Option<DrmObjectId>, dirty: bool)
        requires
            old(self).wf(),
            old(self).has_terminal(),
        ensures
            final(self).wf(),
            final(self).has_terminal(),
            with_active(*old(self), *final(self), fb_id, dirty),
            final(self).framebuffer == old(self).framebuffer,
    {
        let at = self.active_vt;
        let ghost before = self.virtual_terminals@;
        let vt = &mut self.virtual_terminals[at];
        vt.framebuffer_id = fb_id;
        vt.dirty = dirty;
        assert(self.virtual_terminals@ =~= before.update(
            at as int,
            VirtualTerminal { framebuffer_id: fb_id, dirty, ..before[at as int] },
        ));
        assert forall|i: int| 0 <= i < self.virtual_terminals@.len() implies (
        #[trigger] self.virtual_terminals@[i])@.wf() by {
            assert(before[i]@.wf());
            if i == at {
                assert(self.virtual_terminals@[i]@.chars == before[i]@.chars);
                assert(self.virtual_terminals@[i]@.colors == before[i]@.colors);
            }
        }
    }

    /// Puts a framebuffer on the display.
    fn present(&self, drm: &mut DrmContext, fb_id: DrmObjectId) -> (out: CommitOutcome)
        requires
            self.wf(),
            self.has_terminal(),
        ensures
            presented(*self, fb_id, old(drm).device, final(drm).device, old(drm).hw, out),
            *final(drm) == (DrmContext { device: final(drm).device, ..*old(drm) }),
    {
        let plane_id = match self.primary_plane_id {
            Some(p) => p,
            None => {
                return CommitOutcome { result: Ok(()), copies: Vec::new() };
            },
        };
        let at = self.active_vt;
        let mode = if self.virtual_terminals[at].mode.is_some() {
            self.virtual_terminals[at].mode
        } else {
            self.current_mode
        };
        let mut state = AtomicModeSet::begin();
        if let Some(crtc_id) = self.crtc_id {
            if let Some((width, height, _)) = mode {
                AtomicModeSet::set_plane(
                    &mut state,
                    plane_id,
                    Some(crtc_id),
                    Some(fb_id),
                    0,
                    0,
                    width,
                    height,
                    0,
                    0,
                    width << 16,
                    height << 16,
                );
            }
        }
        assert(state.plane_states@ =~= whole_display(
            plane_id,
            self.crtc_id,
            self.shown_mode(),
            fb_id,
        ));
        let hw = drm.hw;
        AtomicModeSet::commit(&mut drm.device, &state, 0, hw)
    }

    /// Brings the display up to date with the active terminal.
    pub fn update_display(&mut self, drm: &mut DrmContext) -> (out: CommitOutcome)
        requires
            old(self).wf(),
            old(self).has_terminal(),
            old(self).modes_ok(),
            old(drm).ids.next < u32::MAX,
        ensures
            final(self).wf(),
            final(self).has_terminal(),
            updated(*old(self), *old(drm), *final(self), *final(drm), out),
            final(self).modes_ok(),
    {
        let ghost before = *self;
        let ghost sub = *drm;
        let at = self.active_vt;
        if !self.drm_enabled {
            self.update_legacy_display();
            assert(self.modes_ok());
            return CommitOutcome { result: Ok(()), copies: Vec::new() };
        }
        if !self.virtual_terminals[at].dirty {
            return CommitOutcome { result: Ok(()), copies: Vec::new() };
        }
        let fb_id = match self.virtual_terminals[at].framebuffer_id {
            Some(id) => id,
            None => {
                let mode = if self.virtual_terminals[at].mode.is_some() {
                    self.virtual_terminals[at].mode
                } else {
                    self.current_mode
                };
                match mode {
                    Some((width, height, _)) => {
                        match self.create_console_framebuffer(drm, width, height) {
                            Ok(id) => id,
                            Err(e) => {
                                return CommitOutcome { result: Err(e), copies: Vec::new() };
                            },
                        }
                    },
                    None => {
                        self.settle(None, false);
                        assert(self.modes_ok());
                        return CommitOutcome { result: Ok(()), copies: Vec::new() };
                    },
                }
            },
        };
        let ghost mid = *drm;
        let out = self.present(drm, fb_id);
        let failed = out.result.is_err();
        self.settle(Some(fb_id), failed);
        assert(self.modes_ok());
        out
    }
}

/// Nothing to copy, with a result.
fn done(result: Result<(), DriverError>) -> (out: CommitOutcome)
    ensures
        out.result == result,
        out.copies@.len() == 0,
{
    CommitOutcome { result, copies: Vec::new() }
}

/// Only the active terminal's grid and cursor differ: `t` is what became of it.
pub open spec fn active_became(a: DrmConsole, b: DrmConsole, t: Terminal) -> bool {
    let v = b.virtual_terminals@[a.active_vt as int];
    &&& v@ == t
    &&& v.same_terminal(&a.active())
    &&& b.virtual_terminals@ == a.virtual_terminals@.update(a.active_vt as int, v)
    &&& b == (DrmConsole { virtual_terminals: b.virtual_terminals, ..a })
}

/// Terminal `vt_id` was made the active one.
pub open spec fn switched(a: DrmConsole, b: DrmConsole, vt_id: int) -> bool {
    let off = a.virtual_terminals@.update(
        a.active_vt as int,
        VirtualTerminal { active: false, ..a.active() },
    );
    &&& b.virtual_terminals@ == off.update(
        vt_id,
        VirtualTerminal { active: true, ..off[vt_id] },
    )
    &&& b.active_vt == vt_id
    &&& b == (DrmConsole {
        virtual_terminals: b.virtual_terminals,
        active_vt: b.active_vt,
        ..a
    })
}

/// Every terminal got an empty grid for the given mode.
pub open spec fn all_resized(
    a: DrmConsole,
    b: DrmConsole,
    width: u32,
    height: u32,
    refresh: u32,
) -> bool {
    &&& b.virtual_terminals@.len() == a.virtual_terminals@.len()
    &&& forall|i: int|
        0 <= i < a.virtual_terminals@.len() ==> resized(
            a.virtual_terminals@[i],
            #[trigger] b.virtual_terminals@[i],
            width,
            height,
            refresh,
        )
    &&& b.current_mode == Some((width, height, refresh))
    &&& b == (DrmConsole {
        virtual_terminals: b.virtual_terminals,
        current_mode: b.current_mode,
        ..a
    })
}

pub open spec fn resized(
    a: VirtualTerminal,
    b: VirtualTerminal,
    width: u32,
    height: u32,
    refresh: u32,
) -> bool {
    &&& b@ == (Terminal {
        chars: uniform(height as int / 16, width as int / 8, 0x20),
        colors: uniform(height as int / 16, width as int / 8, TEXT_COLOR),
        dirty: true,
        ..a@
    })
    &&& b.mode == Some((width, height, refresh))
    &&& b.id == a.id
    &&& b.active == a.active
    &&& b.framebuffer_id == a.framebuffer_id
}

/// Asking for a mode made the console `a` into `b`: not found without the
/// device; otherwise the terminals follow where the display took the mode.
pub open spec fn mode_set(
    a: DrmConsole,
    da: DrmContext,
    b: DrmConsole,
    db: DrmContext,
    width: u32,
    height: u32,
    refresh: u32,
    out: CommitOutcome,
) -> bool {
    if !a.drm_enabled {
        &&& b == a
        &&& db == da
        &&& out.result == Err::<(), DriverError>(DriverError::NotFound)
        &&& out.copies@.len() == 0
    } else {
        &&& display_set(da.device, db.device, width, height, refresh, da.hw, out)
        &&& db == (DrmContext { device: db.device, ..da })
        &&& if out.result is Ok {
            all_resized(a, b, width, height, refresh)
        } else {
            b == a
        }
    }
}

impl DrmConsole {
    /// Sets the display's mode, and fits the terminals to it.
    pub fn set_mode(&mut self, drm: &mut DrmContext, width: u32, height: u32, refresh: u32) -> (out:
        CommitOutcome)
        requires
            old(self).wf(),
        ensures
            final(self).wf(),
            old(self).has_terminal() ==> final(self).has_terminal(),
            mode_set(
                *old(self),
                *old(drm),
                *final(self),
                *final(drm),
                width,
                height,
                refresh,
                out,
            ),
            old(self).modes_ok() && buffer_ok(width, height) ==> final(self).modes_ok(),
    {
        if !self.drm_enabled {
            return done(Err(DriverError::NotFound));
        }
        let hw = drm.hw;
        let out = ModeSet::set_display_mode(&mut drm.device, width, height, refresh, hw);
        if out.result.is_err() {
            return out;
        }
        self.current_mode = Some((width, height, refresh));
        let ghost before = *self;
        let n = self.virtual_terminals.len();
        let mut i: usize = 0;
        while i < n
            invariant
                i <= n,
                n == self.virtual_terminals@.len(),
                n == before.virtual_terminals@.len(),
                before.wf(),
                self.wf(),
                *self == (DrmConsole { virtual_terminals: self.virtual_terminals, ..before }),
                forall|k: int|
                    0 <= k < i ==> resized(
                        before.virtual_terminals@[k],
                        #[trigger] self.virtual_terminals@[k],
                        width,
                        height,
                        refresh,
                    ),
                forall|k: int|
                    i <= k < n ==> #[trigger] self.virtual_terminals@[k]
                        == before.virtual_terminals@[k],
            decreases n - i,
        {
            assert(self.virtual_terminals@[i as int]@.wf());
            let vt = &mut self.virtual_terminals[i];
            vt.resize(width, height, refresh);
            i = i + 1;
        }
        out
    }

    /// Makes a terminal the active one. Not found where there is none of that
    /// number.
    pub fn switch_vt(&mut self, drm: &mut DrmContext, vt_id: usize) -> (out: CommitOutcome)
        requires
            old(self).wf(),
            old(self).modes_ok(),
            old(drm).ids.next < u32::MAX,
        ensures
            final(self).wf(),
            old(self).has_terminal() ==> final(self).has_terminal(),
            final(self).modes_ok(),
            vt_switched(*old(self), *old(drm), *final(self), *final(drm), vt_id as int, out),
    {
        if vt_id >= self.virtual_terminals.len() {
            return done(Err(DriverError::NotFound));
        }
        let ghost before = *self;
        self.flag(false);
        self.active_vt = vt_id;
        self.flag(true);
        let ghost mid = *self;
        assert(switched(before, mid, vt_id as int));
        if self.drm_enabled {
            return self.update_display(drm);
        }
        done(Ok(()))
    }

    /// Marks the active terminal as active or not.
    fn flag(&mut self, active: bool)
        requires
            old(self).wf(),
            old(self).has_terminal(),
            old(self).modes_ok(),
        ensures
            final(self).wf(),
            final(self).has_terminal(),
            final(self).modes_ok(),
            final(self).virtual_terminals@ == old(self).virtual_terminals@.update(
                old(self).active_vt as int,
                VirtualTerminal { active, ..old(self).active() },
            ),
            *final(self) == (DrmConsole {
                virtual_terminals: final(self).virtual_terminals,
                ..*old(self)
            }),
    {
        let at = self.active_vt;
        let ghost before = self.virtual_terminals@;
        let vt = &mut self.virtual_terminals[at];
        vt.active = active;
        assert(self.virtual_terminals@ =~= before.update(
            at as int,
            VirtualTerminal { active, ..before[at as int] },
        ));
        assert forall|i: int| 0 <= i < self.virtual_terminals@.len() implies (
        #[trigger] self.virtual_terminals@[i])@.wf() && mode_ok(self.virtual_terminals@[i].mode) by {
            assert(before[i]@.wf());
            if i == at {
                assert(self.virtual_terminals@[i]@.chars == before[i]@.chars);
                assert(self.virtual_terminals@[i]@.colors == before[i]@.colors);
            }
        }
    }

    /// Writes one byte to the active terminal.
    pub fn write_char(&mut self, c: u8)
        requires
            old(self).wf(),
            old(self).has_terminal(),
            old(self).active()@.rows() > 0,
        ensures
            final(self).wf(),
            final(self).has_terminal(),
            active_became(*old(self), *final(self), old(self).active()@.put(c)),
            final(self).active()@.rows() == old(self).active()@.rows(),
            old(self).modes_ok() ==> final(self).modes_ok(),
    {
        let at = self.active_vt;
        let ghost before = self.virtual_terminals@;
        assert(before[at as int]@.wf());
        let vt = &mut self.virtual_terminals[at];
        vt.put(c);
        assert(self.virtual_terminals@ =~= before.update(
            at as int,
            self.virtual_terminals@[at as int],
        ));
        assert forall|i: int| 0 <= i < self.virtual_terminals@.len() implies (
        #[trigger] self.virtual_terminals@[i])@.wf() by {
            assert(before[i]@.wf());
        }
        assert forall|i: int|
            0 <= i < self.virtual_terminals@.len() && old(self).modes_ok() implies mode_ok(
            (#[trigger] self.virtual_terminals@[i]).mode,
        ) by {
            assert(mode_ok(before[i].mode));
        }
    }

    /// Writes a run of bytes to the active terminal and shows it.
    pub fn write_str(&mut self, drm: &mut DrmContext, s: &[u8]) -> (out: CommitOutcome)
        requires
            old(self).wf(),
            old(self).has_terminal(),
            old(self).modes_ok(),
            old(self).active()@.rows() > 0,
            old(drm).ids.next < u32::MAX,
        ensures
            final(self).wf(),
            final(self).has_terminal(),
            final(self).modes_ok(),
            written(*old(self), *old(drm), *final(self), *final(drm), s@, out),
    {
        let ghost before = *self;
        let ghost start = before.active()@;
        let mut i: usize = 0;
        assert(before.virtual_terminals@ =~= before.virtual_terminals@.update(
            before.active_vt as int,
            before.active(),
        ));
        assert(s@.take(0) =~= Seq::empty());
        while i < s.len()
            invariant
                i <= s@.len(),
                self.wf(),
                self.modes_ok(),
                before.wf(),
                start == before.active()@,
                self.has_terminal(),
                before.has_terminal(),
                self.active()@.rows() > 0,
                self.active_vt == before.active_vt,
                active_became(before, *self, start.puts(s@.take(i as int))),
            decreases s@.len() - i,
        {
            proof {
                let next = s@.take(i + 1);
                assert(next.drop_last() =~= s@.take(i as int));
                assert(next.last() == s@[i as int]);
            }
            let ghost mid = *self;
            self.write_char(s[i]);
            assert(self.virtual_terminals@ =~= before.virtual_terminals@.update(
                before.active_vt as int,
                self.active(),
            ));
            i = i + 1;
        }
        assert(s@.take(i as int) =~= s@);
        let ghost mid = *self;
        self.update_display(drm)
    }
}

/// Switching to terminal `vt_id`: not found where there is none; otherwise it is
/// the active one, and is shown where the device is ours to drive.
pub open spec fn vt_switched(
    a: DrmConsole,
    da: DrmContext,
    b: DrmConsole,
    db: DrmContext,
    vt_id: int,
    out: CommitOutcome,
) -> bool {
    if vt_id >= a.virtual_terminals@.len() {
        &&& b == a
        &&& db == da
        &&& out.result == Err::<(), DriverError>(DriverError::NotFound)
        &&& out.copies@.len() == 0
    } else if a.drm_enabled {
        exists|c: DrmConsole| #[trigger] switched(a, c, vt_id) && updated(c, da, b, db, out)
    } else {
        &&& switched(a, b, vt_id)
        &&& db == da
        &&& out.result is Ok
        &&& out.copies@.len() == 0
    }
}

/// Writing a run of bytes: the active terminal takes them, and is shown.
pub open spec fn written(
    a: DrmConsole,
    da: DrmContext,
    b: DrmConsole,
    db: DrmContext,
    bytes: Seq<u8>,
    out: CommitOutcome,
) -> bool {
    exists|c: DrmConsole| #[trigger]
        active_became(a, c, a.active()@.puts(bytes)) && updated(c, da, b, db, out)
}

/// The device was set up afresh and a session opened on it, which made the
/// console `a` into `b`. The device is ours to drive exactly if that session may
/// become master; the first crtc, connector and plane are then taken.
pub open spec fn drm_started(
    a: DrmConsole,
    da: DrmContext,
    b: DrmConsole,
    db: DrmContext,
    r: Result<(), DriverError>,
) -> bool {
    let token = DrmAuthToken {
        session_id: da.auth@.next_id,
        magic: da.magics.next,
        authenticated: false,
        capabilities: crate::drm::auth::DrmCapabilities { bits: 0 },
    };
    let sessions = da.auth@.active.push(token);
    let master = (exists|i: int|
        0 <= i < sessions.len() && (#[trigger] sessions[i]).session_id == token.session_id
            && sessions[i].authenticated) && da.auth@.master is None;
    &&& is_set_up(db.device, da.ids.next as int, da.display_found)
    &&& db.auth@.active == sessions
    &&& db.auth@.next_id == da.auth@.next_id + 1
    &&& db.auth@.master == (if master {
        Some(token.session_id)
    } else {
        da.auth@.master
    })
    &&& db.ids.next == da.ids.next + 5
    &&& db.magics.next == da.magics.next + 1
    &&& db == (DrmContext {
        device: db.device,
        auth: db.auth,
        ids: db.ids,
        magics: db.magics,
        ..da
    })
    &&& r == (if master {
        Ok(())
    } else {
        Err(DriverError::Unsupported)
    })
    &&& b == (if master {
        DrmConsole {
            master_session: Some(token),
            drm_enabled: true,
            crtc_id: Some(db.device.crtcs@[0].id),
            connector_id: Some(db.device.connectors@[0].id),
            primary_plane_id: Some(db.device.planes@[0].id),
            ..a
        }
    } else {
        DrmConsole { master_session: Some(token), ..a }
    })
}

impl DrmConsole {
    /// Sets the device up and tries to become its master.
    pub fn init_drm(&mut self, drm: &mut DrmContext) -> (r: Result<(), DriverError>)
        requires
            old(drm).ids.next + 5 <= u32::MAX,
            old(drm).auth@.next_id < u32::MAX,
            old(drm).magics.next < u32::MAX,
        ensures
            drm_started(*old(self), *old(drm), *final(self), *final(drm), r),
    {
        drm.device = init_drm(&mut drm.ids, drm.display_found);
        let token = create_session(&mut drm.auth, &mut drm.magics);
        self.master_session = Some(token);
        match set_master(&mut drm.auth, token.session_id) {
            Ok(()) => {
                self.drm_enabled = true;
                let resources = drm.device.get_resources();
                let planes = drm.device.get_plane_resources();
                self.crtc_id = first(&resources.crtcs);
                self.connector_id = first(&resources.connectors);
                self.primary_plane_id = first(&planes.planes);
                Ok(())
            },
            Err(_) => Err(DriverError::Unsupported),
        }
    }

    /// The active terminal, to be changed.
    pub fn current_vt(&mut self) -> (vt: &mut VirtualTerminal)
        requires
            old(self).wf(),
            old(self).has_terminal(),
        ensures
            *vt == old(self).active(),
            final(self).virtual_terminals@ == old(self).virtual_terminals@.update(
                old(self).active_vt as int,
                *final(vt),
            ),
            *final(self) == (DrmConsole {
                virtual_terminals: final(self).virtual_terminals,
                ..*old(self)
            }),
    {
        let at = self.active_vt;
        &mut self.virtual_terminals[at]
    }

    /// Marks the active terminal as changed.
    fn touch(&mut self)
        requires
            old(self).wf(),
            old(self).has_terminal(),
        ensures
            final(self).wf(),
            final(self).has_terminal(),
            active_became(
                *old(self),
                *final(self),
                Terminal { dirty: true, ..old(self).active()@ },
            ),
            old(self).modes_ok() ==> final(self).modes_ok(),
    {
        let at = self.active_vt;
        let fb_id = self.virtual_terminals[at].framebuffer_id;
        self.settle(fb_id, true);
        assert(self.active()@ =~= (Terminal { dirty: true, ..old(self).active()@ }));
        assert(self.virtual_terminals@ =~= old(self).virtual_terminals@.update(
            at as int,
            self.active(),
        ));
    }

    /// Takes a new font size: the active terminal is to be shown again.
    pub fn set_font_size(&mut self, _size: usize)
        requires
            old(self).wf(),
            old(self).has_terminal(),
        ensures
            final(self).wf(),
            final(self).has_terminal(),
            active_became(
                *old(self),
                *final(self),
                Terminal { dirty: true, ..old(self).active()@ },
            ),
    {
        self.touch();
    }

    /// Takes a new text colour: the active terminal is to be shown again.
    pub fn set_text_color(&mut self, _color: u32)
        requires
            old(self).wf(),
            old(self).has_terminal(),
        ensures
            final(self).wf(),
            final(self).has_terminal(),
            active_became(
                *old(self),
                *final(self),
                Terminal { dirty: true, ..old(self).active()@ },
            ),
    {
        self.touch();
    }

    /// Takes a new background colour: the active terminal is to be shown again.
    pub fn set_background_color(&mut self, _color: u32)
        requires
            old(self).wf(),
            old(self).has_terminal(),
        ensures
            final(self).wf(),
            final(self).has_terminal(),
            active_became(
                *old(self),
                *final(self),
                Terminal { dirty: true, ..old(self).active()@ },
            ),
    {
        self.touch();
    }

    /// Takes a new style of the cursor: the active terminal is to be shown again.
    pub fn set_cursor_style(&mut self, _style: u32)
        requires
            old(self).wf(),
            old(self).has_terminal(),
        ensures
            final(self).wf(),
            final(self).has_terminal(),
            active_became(
                *old(self),
                *final(self),
                Terminal { dirty: true, ..old(self).active()@ },
            ),
    {
        self.touch();
    }

    /// Takes a new blinking of the cursor: the active terminal is to be shown again.
    pub fn set_cursor_blink(&mut self, _blink: bool)
        requires
            old(self).wf(),
            old(self).has_terminal(),
        ensures
            final(self).wf(),
            final(self).has_terminal(),
            active_became(
                *old(self),
                *final(self),
                Terminal { dirty: true, ..old(self).active()@ },
            ),
    {
        self.touch();
    }

    /// Takes a new wrapping of lines: the active terminal is to be shown again.
    pub fn set_auto_wrap(&mut self, _wrap: bool)
        requires
            old(self).wf(),
            old(self).has_terminal(),
        ensures
            final(self).wf(),
            final(self).has_terminal(),
            active_became(
                *old(self),
                *final(self),
                Terminal { dirty: true, ..old(self).active()@ },
            ),
    {
        self.touch();
    }

    /// The mode that the display is in.
    pub fn get_current_mode(&self) -> (mode: Option<(u32, u32, u32)>)
        ensures
            mode == self.current_mode,
    {
        self.current_mode
    }

    /// Whether the device is ours to drive.
    pub fn is_drm_enabled(&self) -> (r: bool)
        ensures
            r == self.drm_enabled,
    {
        self.drm_enabled
    }

    /// The number of the active terminal.
    pub fn get_active_vt(&self) -> (vt: usize)
        ensures
            vt == self.active_vt,
    {
        self.active_vt
    }

    /// The modes that can be set: the connectors' where the device is ours to
    /// drive, three common ones otherwise.
    pub fn get_available_modes(&self, drm: &DrmContext) -> (modes: Vec<(u32, u32, u32)>)
        ensures
            modes@ == available_modes(*self, *drm),
    {
        if self.drm_enabled {
            ModeSet::list_modes(&drm.device)
        } else {
            let modes: Vec<(u32, u32, u32)> = vec![(1024, 768, 60), (800, 600, 60), (640, 480, 60)];
            assert(modes@ =~= available_modes(*self, *drm));
            modes
        }
    }

    /// Carries out a control sequence, given without its ESC: `[2J` clears the
    /// active terminal, `[H` homes its cursor, and `[1` to `[8` switch
    /// terminals. Others are ignored.
    pub fn handle_control_sequence(&mut self, drm: &mut DrmContext, sequence: &[u8]) -> (out:
        CommitOutcome)
        requires
            old(self).wf(),
            changes_terminal(sequence@) ==> old(self).has_terminal(),
            old(self).modes_ok(),
            old(drm).ids.next < u32::MAX,
        ensures
            final(self).wf(),
            final(self).modes_ok(),
            controlled(*old(self), *old(drm), *final(self), *final(drm), sequence@, out),
    {
        if sequence.len() < 2 || sequence[0] != 0x5b {
            return done(Ok(()));
        }
        if sequence.len() == 3 && sequence[1] == 0x32 && sequence[2] == 0x4a {
            assert(sequence@ =~= seq![0x5bu8, 0x32, 0x4a]);
            let ghost before = self.virtual_terminals@;
            assert(before[self.active_vt as int]@.wf());
            let at = self.active_vt;
            let vt = &mut self.virtual_terminals[at];
            vt.clear(0);
            assert(self.virtual_terminals@ =~= before.update(
                at as int,
                self.virtual_terminals@[at as int],
            ));
            assert forall|i: int| 0 <= i < self.virtual_terminals@.len() implies (
            #[trigger] self.virtual_terminals@[i])@.wf() && mode_ok(
                self.virtual_terminals@[i].mode,
            ) by {
                assert(before[i]@.wf() && mode_ok(before[i].mode));
            }
        } else if sequence.len() == 2 && sequence[1] == 0x48 {
            assert(sequence@ =~= seq![0x5bu8, 0x48]);
            let ghost before = self.virtual_terminals@;
            let at = self.active_vt;
            let vt = &mut self.virtual_terminals[at];
            vt.cursor_x = 0;
            vt.cursor_y = 0;
            vt.dirty = true;
            assert(self.virtual_terminals@ =~= before.update(
                at as int,
                self.virtual_terminals@[at as int],
            ));
            assert(self.virtual_terminals@[at as int]@ =~= (Terminal {
                cursor_x: 0,
                cursor_y: 0,
                dirty: true,
                ..before[at as int]@
            }));
            assert forall|i: int| 0 <= i < self.virtual_terminals@.len() implies (
            #[trigger] self.virtual_terminals@[i])@.wf() && mode_ok(
                self.virtual_terminals@[i].mode,
            ) by {
                assert(before[i]@.wf() && mode_ok(before[i].mode));
            }
        } else if sequence.len() == 2 && sequence[1] >= 0x31 && sequence[1] <= 0x39 {
            let out = self.switch_vt(drm, (sequence[1] - 0x31) as usize);
            return CommitOutcome { result: Ok(()), copies: out.copies };
        }
        done(Ok(()))
    }
}

/// The first of a list of ids.
fn first(ids: &Vec<DrmObjectId>) -> (r: Option<DrmObjectId>)
    ensures
        r == (if ids@.len() > 0 {
            Some(ids@[0])
        } else {
            None
        }),
{
    if ids.len() > 0 {
        Some(ids[0])
    } else {
        None
    }
}

/// The modes that can be set.
pub open spec fn available_modes(c: DrmConsole, d: DrmContext) -> Seq<(u32, u32, u32)> {
    if c.drm_enabled {
        crate::drm::modes::modes_listed(d.device.connectors@, d.device.connectors@.len() as int)
    } else {
        seq![(1024u32, 768u32, 60u32), (800, 600, 60), (640, 480, 60)]
    }
}

/// The control sequence changes the terminal that is shown.
pub open spec fn changes_terminal(sequence: Seq<u8>) -> bool {
    sequence == seq![0x5bu8, 0x32, 0x4a] || sequence == seq![0x5bu8, 0x48]
}

/// What a control sequence does. It never fails: a switch to a terminal that is
/// not there, or that cannot be shown, is passed over.
pub open spec fn controlled(
    a: DrmConsole,
    da: DrmContext,
    b: DrmConsole,
    db: DrmContext,
    sequence: Seq<u8>,
    out: CommitOutcome,
) -> bool {
    &&& out.result is Ok
    &&& if sequence == seq![0x5bu8, 0x32, 0x4a] {
        active_became(a, b, a.active()@.clear(0)) && db == da && out.copies@.len() == 0
    } else if sequence == seq![0x5bu8, 0x48] {
        &&& active_became(
            a,
            b,
            Terminal { cursor_x: 0, cursor_y: 0, dirty: true, ..a.active()@ },
        )
        &&& db == da
        &&& out.copies@.len() == 0
    } else if sequence.len() == 2 && sequence[0] == 0x5b && 0x31 <= sequence[1] <= 0x39 {
        exists|o: CommitOutcome| #[trigger]
            vt_switched(a, da, b, db, sequence[1] - 0x31, o) && o.copies == out.copies
    } else {
        b == a && db == da && out.copies@.len() == 0
    }
}

/// Starting the console: not found without a surface. With one, the device is
/// started too, and put into 1024 by 768 where it is ours to drive.
pub open spec fn probed(
    a: DrmConsole,
    da: DrmContext,
    b: DrmConsole,
    db: DrmContext,
    info: Option<BootFramebuffer>,
    surface: Seq<u32>,
    out: CommitOutcome,
) -> bool {
    if !boot_usable(info) {
        &&& out.result == Err::<(), DriverError>(DriverError::NotFound)
        &&& b == DrmConsole { framebuffer: b.framebuffer, ..a }
        &&& b.framebuffer@ == a.framebuffer@
        &&& db == da
        &&& out.copies@.len() == 0
    } else {
        &&& out.result is Ok
        &&& exists|c: DrmConsole, e: DrmConsole, de: DrmContext, r: Result<(), DriverError>|
            {
                &&& c.framebuffer@ == a.framebuffer@.attached(
                    surface,
                    info->0.width as int,
                    info->0.height as int,
                    info->0.pitch as int,
                )
                &&& c == DrmConsole { framebuffer: c.framebuffer, ..a }
                &&& #[trigger] drm_started(c, da, e, de, r)
                &&& if e.drm_enabled {
                    exists|o: CommitOutcome| #[trigger]
                        mode_set(e, de, b, db, 1024, 768, 60, o) && o.copies == out.copies
                } else {
                    b == e && db == de && out.copies@.len() == 0
                }
            }
    }
}

/// Up to the first zero.
pub open spec fn text_of(data: Seq<u8>) -> Seq<u8>
    decreases data.len(),
{
    if data.len() == 0 || data[0] == 0 {
        Seq::empty()
    } else {
        seq![data[0]] + text_of(data.skip(1))
    }
}

/// A mode as it stands in a message.
pub open spec fn mode_bytes(m: (u32, u32, u32)) -> Seq<u8> {
    le32(m.0) + le32(m.1) + le32(m.2)
}

/// The first `k` modes of a list, one after the other.
pub open spec fn list_bytes(modes: Seq<(u32, u32, u32)>, k: int) -> Seq<u8>
    decreases k,
{
    if k <= 0 {
        Seq::empty()
    } else {
        list_bytes(modes, k - 1) + mode_bytes(modes[k - 1])
    }
}

/// Most modes that a reply holds.
pub const MAX_LISTED_MODES: usize = 4;

/// How many of a list of modes a reply holds.
pub open spec fn listed_count(modes: Seq<(u32, u32, u32)>) -> int {
    if modes.len() <= MAX_LISTED_MODES {
        modes.len() as int
    } else {
        MAX_LISTED_MODES as int
    }
}

/// What a message does and how it is answered: 1 writes text, 2 switches
/// terminals, 3 sets a mode, 4 asks for the mode and 5 for the modes that there
/// are. Anything else goes to the surface.
pub open spec fn handled(
    a: DrmConsole,
    da: DrmContext,
    b: DrmConsole,
    db: DrmContext,
    msg: Message,
    reply: Message,
    copies: Seq<PlaneCopy>,
) -> bool {
    let d = msg.data@;
    let text = text_of(d);
    &&& reply.tag == 0
    &&& if msg.tag == 1 {
        &&& reply.data@ == padded(Seq::empty())
        &&& if valid_utf8(text) {
            exists|o: CommitOutcome| #[trigger] written(a, da, b, db, text, o) && o.copies@ == copies
        } else {
            b == a && db == da && copies.len() == 0
        }
    } else if msg.tag == 2 {
        &&& reply.data@ == padded(Seq::empty())
        &&& exists|o: CommitOutcome| #[trigger]
            vt_switched(a, da, b, db, d[0] as int, o) && o.copies@ == copies
    } else if msg.tag == 3 {
        &&& reply.data@ == padded(Seq::empty())
        &&& exists|o: CommitOutcome| #[trigger]
            mode_set(a, da, b, db, u32_at(d, 0), u32_at(d, 4), u32_at(d, 8), o) && o.copies@
                == copies
    } else {
        &&& db == da
        &&& copies.len() == 0
        &&& if msg.tag == 4 {
            &&& b == a
            &&& reply.data@ == padded(
                match a.current_mode {
                    Some(m) => mode_bytes(m),
                    None => Seq::empty(),
                },
            )
        } else if msg.tag == 5 {
            let modes = available_modes(a, da);
            &&& b == a
            &&& reply.data@ == padded(
                seq![listed_count(modes) as u8] + list_bytes(modes, listed_count(modes)),
            )
        } else {
            &&& b == (DrmConsole { framebuffer: b.framebuffer, ..a })
            &&& b.framebuffer@ == a.framebuffer@
            &&& reply.data@ == padded(Seq::empty())
        }
    }
}

/// Whether bytes are text, by `std::str::from_utf8`, which accepts exactly valid
/// UTF-8.
#[verifier::external_body]
fn is_utf8(bytes: &[u8]) -> (r: bool)
    ensures
        r == valid_utf8(bytes@),
{
    std::str::from_utf8(bytes).is_ok()
}

/// The text at the start of a message.
fn message_text(data: &[u8; 56]) -> (text: Vec<u8>)
    ensures
        text@ == text_of(data@),
{
    let mut text: Vec<u8> = Vec::new();
    let mut i: usize = 0;
    assert(data@.skip(0) =~= data@);
    while i < 56 && data[i] != 0
        invariant
            i <= 56,
            data@.len() == 56,
            text@ + text_of(data@.skip(i as int)) == text_of(data@),
        decreases 56 - i,
    {
        proof {
            let rest = data@.skip(i as int);
            assert(rest[0] == data@[i as int]);
            assert(rest.skip(1) =~= data@.skip(i + 1));
            assert(text@.push(data@[i as int]) + text_of(rest.skip(1)) =~= text@ + text_of(rest));
        }
        text.push(data[i]);
        i = i + 1;
    }
    assert(text_of(data@.skip(i as int)) =~= Seq::empty());
    assert(text@ =~= text@ + text_of(data@.skip(i as int)));
    text
}

fn push_mode(out: &mut Vec<u8>, m: (u32, u32, u32))
    ensures
        final(out)@ == old(out)@ + mode_bytes(m),
{
    let ghost before = out@;
    push_u32(out, m.0);
    push_u32(out, m.1);
    push_u32(out, m.2);
    assert(out@ =~= before + mode_bytes(m));
}

impl DrmConsole {
    /// Starts the console on what the boot loader reported.
    pub fn probe(
        &mut self,
        drm: &mut DrmContext,
        info: Option<BootFramebuffer>,
        surface: Vec<u32>,
    ) -> (out: CommitOutcome)
        requires
            old(self).wf(),
            old(drm).ids.next + 5 <= u32::MAX,
            old(drm).auth@.next_id < u32::MAX,
            old(drm).magics.next < u32::MAX,
            boot_usable(info) ==> surface_ok(
                surface@.len(),
                info->0.width as int,
                info->0.height as int,
                info->0.pitch as int,
            ),
        ensures
            final(self).wf(),
            old(self).modes_ok() ==> final(self).modes_ok(),
            probed(*old(self), *old(drm), *final(self), *final(drm), info, surface@, out),
    {
        match self.framebuffer.probe(info, surface) {
            Ok(()) => {
                let ghost c = *self;
                let ghost dc = *drm;
                let started = self.init_drm(drm);
                let ghost e = *self;
                let ghost de = *drm;
                assert(drm_started(c, dc, e, de, started));
                if self.drm_enabled {
                    assert(buffer_ok(1024, 768));
                    let o = self.set_mode(drm, 1024, 768, 60);
                    assert(mode_set(e, de, *self, *drm, 1024, 768, 60, o));
                    let out = CommitOutcome { result: Ok(()), copies: o.copies };
                    return out;
                }
                done(Ok(()))
            },
            Err(_) => done(Err(DriverError::NotFound)),
        }
    }

    /// Answers a message. The second result is what has to be copied to the
    /// screen.
    pub fn handle(&mut self, drm: &mut DrmContext, msg: &Message) -> (r: (Message, Vec<PlaneCopy>))
        requires
            old(self).wf(),
            old(self).modes_ok(),
            msg.tag == 1 && valid_utf8(text_of(msg.data@)) ==> old(self).has_terminal() && old(
                self,
            ).active()@.rows() > 0,
            old(drm).ids.next < u32::MAX,
        ensures
            final(self).wf(),
            msg.tag != 3 || buffer_ok(u32_at(msg.data@, 0), u32_at(msg.data@, 4))
                ==> final(self).modes_ok(),
            handled(
                *old(self),
                *old(drm),
                *final(self),
                *final(drm),
                *msg,
                r.0,
                r.1@,
            ),
    {
        match msg.tag {
            1 => {
                let text = message_text(&msg.data);
                if is_utf8(text.as_slice()) {
                    let out = self.write_str(drm, text.as_slice());
                    (Message::empty(), out.copies)
                } else {
                    (Message::empty(), Vec::new())
                }
            },
            2 => {
                let out = self.switch_vt(drm, msg.data[0] as usize);
                (Message::empty(), out.copies)
            },
            3 => {
                let width = read_u32(&msg.data, 0);
                let height = read_u32(&msg.data, 4);
                let refresh = read_u32(&msg.data, 8);
                let out = self.set_mode(drm, width, height, refresh);
                (Message::empty(), out.copies)
            },
            4 => {
                let mut bytes: Vec<u8> = Vec::new();
                if let Some(m) = self.current_mode {
                    push_mode(&mut bytes, m);
                    assert(bytes@ =~= mode_bytes(m));
                }
                (Message::holding(0, &bytes), Vec::new())
            },
            5 => {
                let modes = self.get_available_modes(drm);
                let n: usize = if modes.len() <= MAX_LISTED_MODES {
                    modes.len()
                } else {
                    MAX_LISTED_MODES
                };
                let mut bytes: Vec<u8> = Vec::new();
                bytes.push(n as u8);
                let ghost head = seq![n as u8];
                assert(bytes@ =~= head + list_bytes(modes@, 0));
                let mut i: usize = 0;
                while i < n
                    invariant
                        i <= n <= modes@.len(),
                        bytes@ == head + list_bytes(modes@, i as int),
                    decreases n - i,
                {
                    push_mode(&mut bytes, modes[i]);
                    i = i + 1;
                    assert(bytes@ =~= head + list_bytes(modes@, i as int));
                }
                (Message::holding(0, &bytes), Vec::new())
            },
            _ => {
                let reply = self.framebuffer.handle(msg);
                (reply, Vec::new())
            },
        }
    }
}

/// Starts the console afresh.
pub fn init_drm_console(
    console: &mut DrmConsole,
    drm: &mut DrmContext,
    info: Option<BootFramebuffer>,
    surface: Vec<u32>,
) -> (out: CommitOutcome)
    requires
        old(drm).ids.next + 5 <= u32::MAX,
        old(drm).auth@.next_id < u32::MAX,
        old(drm).magics.next < u32::MAX,
        boot_usable(info) ==> surface_ok(
            surface@.len(),
            info->0.width as int,
            info->0.height as int,
            info->0.pitch as int,
        ),
    ensures
        final(console).wf(),
        final(console).modes_ok(),
        restarted(*old(drm), *final(console), *final(drm), info, surface@, out),
{
    *console = DrmConsole::new();
    console.probe(drm, info, surface)
}

/// The console as it is before anything has happened: its terminals at 1024 by
/// 768 pixels, the first of them active.
pub open spec fn is_new(c: DrmConsole) -> bool {
    &&& c.wf()
    &&& c.modes_ok()
    &&& c.virtual_terminals@.len() == VT_COUNT
    &&& forall|i: int|
        0 <= i < VT_COUNT ==> {
            let t = #[trigger] c.virtual_terminals@[i];
            &&& t@ == (Terminal {
                chars: uniform(48, 128, 0x20),
                colors: uniform(48, 128, TEXT_COLOR),
                cursor_x: 0,
                cursor_y: 0,
                dirty: true,
            })
            &&& t.id == i
            &&& t.active == (i == 0)
            &&& t.framebuffer_id is None
            &&& t.mode is None
        }
    &&& is_untouched(c)
}

/// Nothing has happened to the console but for its terminals.
pub open spec fn is_untouched(c: DrmConsole) -> bool {
    &&& c.capabilities == (ConsoleCapabilities {
        max_width: 1920,
        max_height: 1080,
        preferred_depth: 32,
        multiple_modes: true,
        hardware_cursor: false,
        double_buffering: true,
    })
    &&& c.active_vt == 0
    &&& c.current_mode is None
    &&& c.framebuffer@ == Screen::fresh()
    &&& c.crtc_id is None
    &&& c.connector_id is None
    &&& c.primary_plane_id is None
    &&& !c.drm_enabled
    &&& c.master_session is None
}

/// A new console was started.
pub open spec fn restarted(
    da: DrmContext,
    b: DrmConsole,
    db: DrmContext,
    info: Option<BootFramebuffer>,
    surface: Seq<u32>,
    out: CommitOutcome,
) -> bool {
    exists|c: DrmConsole| is_new(c) && #[trigger] probed(c, da, b, db, info, surface, out)
}

/// Writes text to the console.
pub fn drm_console_write(console: &mut DrmConsole, drm: &mut DrmContext, s: &[u8]) -> (out:
    CommitOutcome)
    requires
        old(console).wf(),
        old(console).has_terminal(),
        old(console).modes_ok(),
        old(console).active()@.rows() > 0,
        old(drm).ids.next < u32::MAX,
    ensures
        final(console).wf(),
        final(console).has_terminal(),
        final(console).modes_ok(),
        written(*old(console), *old(drm), *final(console), *final(drm), s@, out),
{
    console.write_str(drm, s)
}

/// Switches terminals.
pub fn drm_console_switch_vt(console: &mut DrmConsole, drm: &mut DrmContext, vt_id: usize) -> (out:
    CommitOutcome)
    requires
        old(console).wf(),
        old(console).modes_ok(),
        old(drm).ids.next < u32::MAX,
    ensures
        final(console).wf(),
        old(console).has_terminal() ==> final(console).has_terminal(),
        final(console).modes_ok(),
        vt_switched(
            *old(console),
            *old(drm),
            *final(console),
            *final(drm),
            vt_id as int,
            out,
        ),
{
    console.switch_vt(drm, vt_id)
}

/// Sets the display's mode.
pub fn drm_console_set_mode(
    console: &mut DrmConsole,
    drm: &mut DrmContext,
    width: u32,
    height: u32,
    refresh: u32,
) -> (out: CommitOutcome)
    requires
        old(console).wf(),
    ensures
        final(console).wf(),
        old(console).has_terminal() ==> final(console).has_terminal(),
        mode_set(
            *old(console),
            *old(drm),
            *final(console),
            *final(drm),
            width,
            height,
            refresh,
            out,
        ),
        old(console).modes_ok() && buffer_ok(width, height) ==> final(console).modes_ok(),
{
    console.set_mode(drm, width, height, refresh)
}

/// Two terminals hold the same text, and their cursors are at the same place.
pub open spec fn same_text(a: VirtualTerminal, b: VirtualTerminal) -> bool {
    &&& a@.chars == b@.chars
    &&& a@.colors == b@.colors
    &&& (a@.cursor_x, a@.cursor_y) == (b@.cursor_x, b@.cursor_y)
}

/// Bringing the display up to date changes no text.
proof fn lemma_updating_keeps_text(
    a: DrmConsole,
    da: DrmContext,
    b: DrmConsole,
    db: DrmContext,
    out: CommitOutcome,
    i: int,
)
    requires
        a.active_vt < a.virtual_terminals@.len(),
        updated(a, da, b, db, out),
        0 <= i < a.virtual_terminals@.len(),
    ensures
        b.virtual_terminals@.len() == a.virtual_terminals@.len(),
        same_text(b.virtual_terminals@[i], a.virtual_terminals@[i]),
        i != a.active_vt ==> b.virtual_terminals@[i] == a.virtual_terminals@[i],
{
}

/// What is written goes to the terminal that is shown. The others stay as they
/// are.
pub proof fn lemma_writing_leaves_the_others(
    a: DrmConsole,
    da: DrmContext,
    b: DrmConsole,
    db: DrmContext,
    bytes: Seq<u8>,
    out: CommitOutcome,
    i: int,
)
    requires
        a.wf(),
        a.has_terminal(),
        written(a, da, b, db, bytes, out),
        0 <= i < a.virtual_terminals@.len(),
    ensures
        i != a.active_vt ==> b.virtual_terminals@[i] == a.virtual_terminals@[i],
        b.active_vt == a.active_vt,
{
    let c = choose|c: DrmConsole| #[trigger]
        active_became(a, c, a.active()@.puts(bytes)) && updated(c, da, b, db, out);
    lemma_updating_keeps_text(c, da, b, db, out, i);
}

/// A terminal keeps its text and its cursor while others are shown, and when it
/// is shown again.
pub proof fn lemma_switching_keeps_all_text(
    a: DrmConsole,
    da: DrmContext,
    b: DrmConsole,
    db: DrmContext,
    vt_id: int,
    out: CommitOutcome,
    i: int,
)
    requires
        a.wf(),
        a.has_terminal(),
        0 <= vt_id,
        vt_switched(a, da, b, db, vt_id, out),
        0 <= i < a.virtual_terminals@.len(),
    ensures
        b.virtual_terminals@.len() == a.virtual_terminals@.len(),
        same_text(b.virtual_terminals@[i], a.virtual_terminals@[i]),
{
    if vt_id < a.virtual_terminals@.len() && a.drm_enabled {
        let c = choose|c: DrmConsole| #[trigger]
            switched(a, c, vt_id) && updated(c, da, b, db, out);
        assert(same_text(c.virtual_terminals@[i], a.virtual_terminals@[i]));
        lemma_updating_keeps_text(c, da, b, db, out, i);
    }
}

} // verus!
