//! The display device as a file: its requests, and reading, writing and mapping
//! it.
//!
//! A request names a structure in its caller's memory. The structures are read
//! and written outside; what is here takes their fields and gives them back,
//! together with what is to be asked of the graphics processor.
use vstd::prelude::*;
use crate::DriverError;
use crate::bo::{BoRegistry, BoState, block_bytes};
use crate::bytes::{le64, push_u64, read_u64, u64_at};
use crate::console::{
    KernelConsole, SCANOUT_UNOWNED, claimant, drm_scanout_claim, resumed, set_console_disabled,
};
use crate::drm::device::{
    CommitOutcome, DrmDevice, FramebufferInfo, HardwareFb, committed, crtc_set, first_with,
    none_with, position,
};
use crate::drm::framebuffer::{DrmFormat, DrmFramebuffer};
use crate::drm::modes::{AtomicModeSet, ModeSet, display_set};
use crate::drm::objects::{
    DrmAtomicState, DrmModeInfo, DrmObject, DrmObjectId, DrmPlaneState, IdCounter, timing_fits,
};
use crate::drm_console::DrmContext;
use crate::drm_driver::{DrmDriver, device_started};
use crate::drm_ioctl::{Ioctl, IoctlParts, ioctl_parts, parts_of};
use crate::flip_events::{DRM_MODE_PAGE_FLIP_EVENT, FlipQueue, FlipState, event_at};
use crate::message::{Message, padded};
use crate::notes::{MAX_NOTED, NoteSet};
use crate::pages::{is_order_for, order_for_bytes, pages_for};
use crate::registry::{entries_u32, lists_u32};
use crate::text::{fill_name, name_field};

verus! {

/// Whether each request to the graphics processor is traced on the serial port.
/// It happens too often to be traced by default; what is rare and unexpected is
/// reported in any case.
pub const GPU3D_DEBUG: bool = false;

/// The device file.
pub struct DrmDeviceInterface {
    pub driver: DrmDriver,
    /// The requests that were reported as unknown.
    pub unknown: NoteSet,
    /// Some client asked for atomic commits.
    pub atomic_client: bool,
}

/// What is to be done about a request.
pub struct Routed {
    /// The request to carry out; nothing more to do if there is none.
    pub result: Result<Option<Ioctl>, DriverError>,
    /// What to report of a request that nobody knows.
    pub report: Option<IoctlParts>,
}

/// Nobody knows the request.
pub open spec fn is_unknown(cmd: u32) -> bool {
    forall|i: Ioctl| #[trigger] i.number() != cmd
}

/// How a request is answered before it is carried out. Whoever is master is not
/// looked at, so those transitions just succeed; buffers are not passed between
/// devices here.
pub open spec fn first_answer(i: Ioctl, arg: u64) -> Result<Option<Ioctl>, DriverError> {
    match i {
        Ioctl::SetMaster => Ok(None),
        Ioctl::DropMaster => Ok(None),
        Ioctl::AuthMagic => Ok(None),
        Ioctl::PrimeHandleToFd => Err(DriverError::Unsupported),
        Ioctl::PrimeFdToHandle => Err(DriverError::Unsupported),
        _ => if i.checks_argument() && arg == 0 {
            Err(DriverError::InvalidParameter)
        } else {
            Ok(Some(i))
        },
    }
}

/// The numbers of the requests that put a client's picture on the screen.
pub open spec fn takes_screen(cmd: u32) -> bool {
    cmd == 0x1001 || cmd == 0x1004 || cmd == 0xC068_64A2 || cmd == 0xC018_64B0
}

/// These are the requests that say so of themselves.
pub proof fn lemma_screen_requests(i: Ioctl)
    ensures
        takes_screen(i.number()) == i.takes_screen(),
{
}

impl DrmDeviceInterface {
    pub fn new() -> (d: DrmDeviceInterface)
        ensures
            !d.driver.initialized,
            d.unknown.wf(),
            d.unknown@ == Seq::<u64>::empty(),
            !d.atomic_client,
    {
        DrmDeviceInterface {
            driver: DrmDriver::new(),
            unknown: NoteSet::new(),
            atomic_client: false,
        }
    }

    /// Takes in a request. One that asks for the screen silences the console
    /// first, whatever comes of it; the scanout stays with whoever has it until a
    /// picture is presented. One that nobody knows is refused, and reported the
    /// first time. Through which open the request came matters to what carries it
    /// out, not here.
    pub fn handle_ioctl(
        &mut self,
        console: &mut KernelConsole,
        cmd: u32,
        arg: u64,
        _open_id: u32,
    ) -> (r: Routed)
        requires
            old(self).unknown.wf(),
            old(console).fb.inv(),
        ensures
            final(self).unknown.wf(),
            forall|i: Ioctl| #[trigger] i.number() == cmd ==> r.result == first_answer(i, arg),
            is_unknown(cmd) ==> r.result == Err::<Option<Ioctl>, DriverError>(
                DriverError::Unsupported,
            ),
            r.report is Some <==> is_unknown(cmd) && !old(self).unknown@.contains(cmd as u64),
            r.report is Some ==> r.report->0 == parts_of(cmd),
            final(self).unknown@ == (if r.report is Some && old(self).unknown@.len() < MAX_NOTED {
                old(self).unknown@.push(cmd as u64)
            } else {
                old(self).unknown@
            }),
            final(self).driver == old(self).driver,
            final(self).atomic_client == old(self).atomic_client,
            final(console).fb.inv(),
            final(console).fb@ == old(console).fb@,
            final(console).owner == old(console).owner,
            final(console).deferred == old(console).deferred,
            final(console).enabled == (old(console).enabled && !takes_screen(cmd)),
            old(console).yields() ==> final(console).yields(),
    {
        if cmd == 0x1001 || cmd == 0x1004 || cmd == 0xC068_64A2 || cmd == 0xC018_64B0 {
            set_console_disabled(console, true);
        }
        let i = match Ioctl::of(cmd) {
            Some(i) => i,
            None => {
                let report = if self.unknown.first(cmd as u64) {
                    Some(ioctl_parts(cmd))
                } else {
                    None
                };
                return Routed { result: Err(DriverError::Unsupported), report };
            },
        };
        proof {
            assert forall|j: Ioctl| #[trigger] j.number() == cmd implies j == i by {
                crate::drm_ioctl::lemma_numbers_differ(i, j);
            }
        }
        let result = match i {
            Ioctl::SetMaster => Ok(None),
            Ioctl::DropMaster => Ok(None),
            Ioctl::AuthMagic => Ok(None),
            Ioctl::PrimeHandleToFd => Err(DriverError::Unsupported),
            Ioctl::PrimeFdToHandle => Err(DriverError::Unsupported),
            _ => if i.needs_argument() && arg == 0 {
                Err(DriverError::InvalidParameter)
            } else {
                Ok(Some(i))
            },
        };
        assert(!is_unknown(cmd)) by {
            assert(i.number() == cmd);
        }
        Routed { result, report: None }
    }

    /// Sets the device up.
    pub fn probe(&mut self, drm: &mut DrmContext) -> (r: Result<(), DriverError>)
        requires
            old(drm).ids.next + 5 <= u32::MAX,
        ensures
            r is Ok,
            final(self).driver.initialized,
            final(self).unknown == old(self).unknown,
            final(self).atomic_client == old(self).atomic_client,
            device_started(*old(drm), *final(drm)),
    {
        self.driver.probe(drm)
    }

    /// Brings the console back. Who scans out is not looked at: an open gives the
    /// scanout back when it closes.
    pub fn release(&mut self, console: &mut KernelConsole)
        requires
            old(console).fb.inv(),
        ensures
            *final(self) == *old(self),
            final(console).fb.inv(),
            final(console).fb@ == resumed(old(console).fb@),
            final(console).enabled,
            final(console).owner == old(console).owner,
            final(console).deferred == old(console).deferred,
    {
        set_console_disabled(console, false);
    }
}

/// A request of the open `open_id` is done. If a picture reached the screen on
/// its way, whatever the request was, the open scans out from now on and the
/// console is silent.
pub fn request_done(console: &mut KernelConsole, open_id: u32, presented: bool)
    requires
        old(console).fb.inv(),
    ensures
        final(console).fb.inv(),
        final(console).fb@ == old(console).fb@,
        final(console).deferred == old(console).deferred,
        final(console).owner == (if presented {
            claimant(open_id)
        } else {
            old(console).owner
        }),
        final(console).enabled == (old(console).enabled && !(presented && old(console).owner
            == SCANOUT_UNOWNED)),
        old(console).consistent() ==> final(console).consistent(),
        old(console).yields() ==> final(console).yields(),
{
    if presented {
        drm_scanout_claim(console, open_id);
    }
}

/// What a commit came to, with every error made into one.
pub open spec fn with_error(
    r: Result<(), DriverError>,
    e: DriverError,
) -> Result<(), DriverError> {
    match r {
        Ok(()) => Ok(()),
        Err(_) => Err(e),
    }
}

/// Sets the best mode for the given width, height and refresh rate.
pub fn handle_set_mode(device: &mut DrmDevice, mode: [u32; 3], hw: Option<HardwareFb>) -> (out:
    CommitOutcome)
    ensures
        exists|inner: CommitOutcome| #[trigger]
            display_set(
                *old(device),
                *final(device),
                mode@[0],
                mode@[1],
                mode@[2],
                hw,
                inner,
            ) && out.copies == inner.copies && out.result == with_error(
                inner.result,
                DriverError::Io,
            ),
{
    let inner = ModeSet::set_display_mode(device, mode[0], mode[1], mode[2], hw);
    let ghost whole = inner;
    let result = match inner.result {
        Ok(()) => Ok(()),
        Err(_) => Err(DriverError::Io),
    };
    let out = CommitOutcome { result, copies: inner.copies };
    assert(display_set(
        *old(device),
        *device,
        mode@[0],
        mode@[1],
        mode@[2],
        hw,
        whole,
    ));
    out
}

/// The mode that is reported: that of the first crtc, or else the size of the
/// boot framebuffer, or else 640 by 480, both at 60 Hz.
pub open spec fn reported_mode(device: DrmDevice, info: FramebufferInfo) -> (u32, u32, u32) {
    if device.crtcs@.len() > 0 && device.crtcs@[0].mode is Some {
        let m = device.crtcs@[0].mode->0;
        (m.hdisplay as u32, m.vdisplay as u32, m.vrefresh)
    } else if info.width > 0 && info.height > 0 {
        (info.width, info.height, 60)
    } else {
        (640, 480, 60)
    }
}

/// The mode of the display.
pub fn handle_get_mode_safe(device: &DrmDevice, info: FramebufferInfo) -> (m: (u32, u32, u32))
    ensures
        m == reported_mode(*device, info),
{
    match ModeSet::get_display_mode(device) {
        Some(m) => m,
        None => if info.width > 0 && info.height > 0 {
            (info.width, info.height, 60)
        } else {
            (640, 480, 60)
        },
    }
}

/// The size of the display: that of the first crtc's mode, or else that of the
/// boot framebuffer.
pub open spec fn display_size(device: DrmDevice, info: FramebufferInfo) -> (u32, u32) {
    match device.crtcs@[0].mode {
        Some(m) => (m.hdisplay as u32, m.vdisplay as u32),
        None => (info.width, info.height),
    }
}

/// The plane that shows a framebuffer over the whole display.
pub open spec fn whole_plane(
    device: DrmDevice,
    info: FramebufferInfo,
    fb_id: u32,
    src_w: u32,
    src_h: u32,
) -> DrmPlaneState {
    DrmPlaneState {
        plane_id: device.planes@[0].id,
        crtc_id: Some(device.crtcs@[0].id),
        fb_id: Some(DrmObjectId(fb_id)),
        crtc_x: 0,
        crtc_y: 0,
        crtc_w: display_size(device, info).0,
        crtc_h: display_size(device, info).1,
        src_x: 0,
        src_y: 0,
        src_w: src_w << 16,
        src_h: src_h << 16,
    }
}

/// Committing one plane and nothing else made the device `a` into `b`.
pub open spec fn plane_committed(
    a: DrmDevice,
    b: DrmDevice,
    st: DrmPlaneState,
    hw: Option<HardwareFb>,
    out: CommitOutcome,
) -> bool {
    exists|state: DrmAtomicState, n: int| #[trigger]
        committed(a, b, state, hw, out, n) && state.crtc_states@.len() == 0
            && state.connector_states@.len() == 0 && state.plane_states@ == seq![st]
}

/// Nothing was done, for want of what it takes.
pub open spec fn refused(a: DrmDevice, b: DrmDevice, out: CommitOutcome) -> bool {
    &&& b == a
    &&& out.result == Err::<(), DriverError>(DriverError::NotFound)
    &&& out.copies@.len() == 0
}

/// Showing a framebuffer made the device `a` into `b`: refused without a crtc, a
/// plane, or a display that has a size. A source of no width or height counts as
/// 320 by 200.
pub open spec fn flipped(
    a: DrmDevice,
    b: DrmDevice,
    flip: Seq<u32>,
    info: FramebufferInfo,
    hw: Option<HardwareFb>,
    out: CommitOutcome,
) -> bool {
    let src_w = if flip[2] != 0 { flip[2] } else { 320 };
    let src_h = if flip[3] != 0 { flip[3] } else { 200 };
    if a.crtcs@.len() == 0 || display_size(a, info).0 == 0 || display_size(a, info).1 == 0
        || a.planes@.len() == 0 {
        refused(a, b, out)
    } else {
        plane_committed(a, b, whole_plane(a, info, flip[0], src_w, src_h), hw, out)
    }
}

/// Shows a framebuffer over the whole display: its id, flags, and the size of
/// the source.
pub fn handle_flip_page(
    device: &mut DrmDevice,
    flip: [u32; 4],
    info: FramebufferInfo,
    hw: Option<HardwareFb>,
) -> (out: CommitOutcome)
    ensures
        flipped(*old(device), *final(device), flip@, info, hw, out),
{
    let src_w: u32 = if flip[2] != 0 { flip[2] } else { 320 };
    let src_h: u32 = if flip[3] != 0 { flip[3] } else { 200 };
    if device.crtcs.len() == 0 {
        return CommitOutcome { result: Err(DriverError::NotFound), copies: Vec::new() };
    }
    let crtc_id = device.crtcs[0].id();
    let (w, h) = match &device.crtcs[0].mode {
        Some(m) => (m.hdisplay as u32, m.vdisplay as u32),
        None => (info.width, info.height),
    };
    if w == 0 || h == 0 || device.planes.len() == 0 {
        return CommitOutcome { result: Err(DriverError::NotFound), copies: Vec::new() };
    }
    let plane_id = device.planes[0].id();
    let mut state = AtomicModeSet::begin();
    AtomicModeSet::set_plane(
        &mut state,
        plane_id,
        Some(crtc_id),
        Some(DrmObjectId(flip[0])),
        0,
        0,
        w,
        h,
        0,
        0,
        src_w << 16,
        src_h << 16,
    );
    assert(state.plane_states@ =~= seq![whole_plane(*device, info, flip@[0], src_w, src_h)]);
    AtomicModeSet::commit(device, &state, 0, hw)
}

/// The object with the given id, where zero means none.
pub open spec fn some_id(id: u32) -> Option<DrmObjectId> {
    if id != 0 { Some(DrmObjectId(id)) } else { None }
}

/// The plane that a request describes: its id, its crtc and framebuffer, where it
/// goes and what of the framebuffer it shows.
pub open spec fn asked_plane(words: Seq<u32>) -> DrmPlaneState {
    DrmPlaneState {
        plane_id: DrmObjectId(words[0]),
        crtc_id: some_id(words[1]),
        fb_id: some_id(words[2]),
        crtc_x: words[3] as i32,
        crtc_y: words[4] as i32,
        crtc_w: words[5],
        crtc_h: words[6],
        src_x: words[7],
        src_y: words[8],
        src_w: words[9],
        src_h: words[10],
    }
}

fn id_if_any(id: u32) -> (r: Option<DrmObjectId>)
    ensures
        r == some_id(id),
{
    if id != 0 { Some(DrmObjectId(id)) } else { None }
}

/// Places a plane.
pub fn handle_set_plane(device: &mut DrmDevice, words: [u32; 12], hw: Option<HardwareFb>) -> (out:
    CommitOutcome)
    ensures
        plane_committed(*old(device), *final(device), asked_plane(words@), hw, out),
{
    let mut state = AtomicModeSet::begin();
    AtomicModeSet::set_plane(
        &mut state,
        DrmObjectId(words[0]),
        id_if_any(words[1]),
        id_if_any(words[2]),
        words[3] as i32,
        words[4] as i32,
        words[5],
        words[6],
        words[7],
        words[8],
        words[9],
        words[10],
    );
    assert(state.plane_states@ =~= seq![asked_plane(words@)]);
    AtomicModeSet::commit(device, &state, 0, hw)
}

/// What is said of a capability to a client of the system's own interface.
pub open spec fn own_capability(capability: u32) -> u32 {
    if capability == 1 || capability == 2 || capability == 7 {
        1
    } else if capability == 8 || capability == 9 {
        64
    } else {
        0
    }
}

/// Buffers that are drawn by software, the vertical blank and unsynchronised
/// flips are there; the cursor has 64 pixels each way; all else is not there.
pub fn handle_get_capabilities(capability: u32) -> (value: u32)
    ensures
        value == own_capability(capability),
{
    match capability {
        0x1 => 1,
        0x2 => 1,
        0x7 => 1,
        0x8 => 64,
        0x9 => 64,
        _ => 0,
    }
}

/// What is said of a capability to a client of the standard interface.
pub open spec fn standard_capability(capability: u64) -> u64 {
    if capability == 0x1 || capability == 0x6 || capability == 0x12 {
        1
    } else if capability == 0x5 {
        3
    } else if capability == 0x8 || capability == 0x9 {
        64
    } else {
        0
    }
}

/// Buffers that are drawn by software, monotonic time stamps, and events that
/// name their crtc are there; buffers can be passed on both ways; the cursor has
/// 64 pixels each way; all else is not there. An unknown one is no error.
pub fn std_handle_get_cap(capability: u64) -> (value: u64)
    ensures
        value == standard_capability(capability),
{
    match capability {
        0x1 => 1,
        0x5 => 3,
        0x6 => 1,
        0x8 => 64,
        0x9 => 64,
        0x12 => 1,
        _ => 0,
    }
}

/// The number of the capability of a client to make atomic commits.
pub const DRM_CLIENT_CAP_ATOMIC: u64 = 3;

impl DrmDeviceInterface {
    /// Takes in what a client can do. Anything is accepted; only atomic commits
    /// are remembered.
    pub fn std_handle_set_client_cap(&mut self, capability: u64, value: u64) -> (r: Result<
        usize,
        DriverError,
    >)
        ensures
            r == Ok::<usize, DriverError>(0),
            final(self).atomic_client == (if capability == DRM_CLIENT_CAP_ATOMIC {
                value != 0
            } else {
                old(self).atomic_client
            }),
            final(self).driver == old(self).driver,
            final(self).unknown == old(self).unknown,
    {
        if capability == DRM_CLIENT_CAP_ATOMIC {
            self.atomic_client = value != 0;
        }
        Ok(0)
    }

    /// The magic number of a client: there is one seat, so all have the same.
    pub fn std_handle_get_magic(&self) -> (magic: u32)
        ensures
            magic == 1,
    {
        1
    }

    /// Reading the device gives no events: these come by another way.
    pub fn handle_read(&mut self, _buffer: &mut [u8]) -> (r: Result<usize, DriverError>)
        ensures
            r == Ok::<usize, DriverError>(0),
            *final(self) == *old(self),
            final(_buffer)@ == old(_buffer)@,
    {
        Ok(0)
    }
}

/// Some client asked for atomic commits.
pub fn atomic_client(interface: &DrmDeviceInterface) -> (b: bool)
    ensures
        b == interface.atomic_client,
{
    interface.atomic_client
}

/// A text of the device's version, and whether it goes into the caller's buffer.
pub struct VersionText {
    /// The text, with the zero that ends it.
    pub text: &'static str,
    /// How long it is, which is always reported.
    pub len: usize,
    pub fill: bool,
}

/// What a client learns of the device.
pub struct VersionReply {
    pub major: i32,
    pub minor: i32,
    pub patchlevel: i32,
    pub name: VersionText,
    pub date: VersionText,
    pub desc: VersionText,
}

/// The text is reported with its length, and copied if there is room for all of
/// it.
pub open spec fn is_text(t: VersionText, text: Seq<char>, ptr: u64, room: usize) -> bool {
    &&& t.text@ == text
    &&& t.len == text.len()
    &&& t.fill == (ptr != 0 && room >= text.len())
}

/// A buffer for a text: where it is, and how long.
#[derive(Debug, Clone, Copy, PartialEq, Eq, Structural)]
pub struct TextBuffer {
    pub ptr: u64,
    pub room: usize,
}

/// The device's version: 1.6.0, and its name, date and description.
pub fn std_handle_version(name: TextBuffer, date: TextBuffer, desc: TextBuffer) -> (v: VersionReply)
    ensures
        v.major == 1 && v.minor == 6 && v.patchlevel == 0,
        is_text(v.name, "leandros-drm\0"@, name.ptr, name.room),
        is_text(v.date, "20261201\0"@, date.ptr, date.room),
        is_text(v.desc, "LeandrOS DRM driver\0"@, desc.ptr, desc.room),
{
    proof {
        reveal_strlit("leandros-drm\0");
        reveal_strlit("20261201\0");
        reveal_strlit("LeandrOS DRM driver\0");
    }
    VersionReply {
        major: 1,
        minor: 6,
        patchlevel: 0,
        name: VersionText {
            text: "leandros-drm\0",
            len: 13,
            fill: name.ptr != 0 && name.room >= 13,
        },
        date: VersionText { text: "20261201\0", len: 9, fill: date.ptr != 0 && date.room >= 9 },
        desc: VersionText {
            text: "LeandrOS DRM driver\0",
            len: 20,
            fill: desc.ptr != 0 && desc.room >= 20,
        },
    }
}

/// An array of the caller's: where it is, and for how many it has room.
#[derive(Debug, Clone, Copy, PartialEq, Eq, Structural)]
pub struct CallerArray {
    pub ptr: u64,
    pub room: u32,
}

impl CallerArray {
    /// There is room for one.
    pub open spec fn takes_one(self) -> bool {
        self.ptr != 0 && self.room >= 1
    }

    fn fits_one(&self) -> (b: bool)
        ensures
            b == self.takes_one(),
    {
        self.ptr != 0 && self.room >= 1
    }
}

/// The objects of the device: one of each kind, all with the number 1.
#[derive(Debug, Clone, Copy, PartialEq, Eq, Structural)]
pub struct CardResources {
    /// The number to write into each array that is to be filled.
    pub id: u32,
    pub fill_crtcs: bool,
    pub fill_connectors: bool,
    pub fill_encoders: bool,
    /// How many there are of each.
    pub count: u32,
    pub min_width: u32,
    pub max_width: u32,
    pub min_height: u32,
    pub max_height: u32,
}

/// Lists the objects of the device.
pub fn std_handle_get_resources(
    crtcs: CallerArray,
    connectors: CallerArray,
    encoders: CallerArray,
) -> (r: CardResources)
    ensures
        r == (CardResources {
            id: 1,
            fill_crtcs: crtcs.takes_one(),
            fill_connectors: connectors.takes_one(),
            fill_encoders: encoders.takes_one(),
            count: 1,
            min_width: 320,
            max_width: 4096,
            min_height: 200,
            max_height: 4096,
        }),
{
    CardResources {
        id: 1,
        fill_crtcs: crtcs.fits_one(),
        fill_connectors: connectors.fits_one(),
        fill_encoders: encoders.fits_one(),
        count: 1,
        min_width: 320,
        max_width: 4096,
        min_height: 200,
        max_height: 4096,
    }
}

/// A sum, or the largest number if it does not fit.
pub open spec fn sum16(a: int, b: int) -> u16 {
    if a + b <= u16::MAX { (a + b) as u16 } else { u16::MAX }
}

/// The mode that the connector offers: that of the boot framebuffer at 60 Hz. It
/// has the low sixteen bits of its size, some blanking, and the clock in kHz that
/// gives that rate.
pub open spec fn is_native_mode(m: DrmModeInfo, info: FramebufferInfo) -> bool {
    let w = (info.width % 65536) as int;
    let h = (info.height % 65536) as int;
    &&& m.clock == sum16(w, 160) * sum16(h, 40) * 60 / 1000
    &&& m.hdisplay == w
    &&& m.hsync_start == sum16(w, 48)
    &&& m.hsync_end == sum16(w, 80)
    &&& m.htotal == sum16(w, 160)
    &&& m.hskew == 0
    &&& m.vdisplay == h
    &&& m.vsync_start == sum16(h, 3)
    &&& m.vsync_end == sum16(h, 9)
    &&& m.vtotal == sum16(h, 40)
    &&& m.vscan == 0
    &&& m.vrefresh == 60
    &&& m.flags == 0
    &&& m.type_ == 0
    &&& m.name@ == name_field("Native"@)
}

fn add16(a: u16, b: u16) -> (r: u16)
    ensures
        r == sum16(a as int, b as int),
{
    if a <= u16::MAX - b { a + b } else { u16::MAX }
}

/// The connector: its fixed answers, the mode, and what of the caller's arrays
/// to fill. There is always one encoder and one mode.
#[derive(Debug, Clone, Copy)]
pub struct ConnectorReply {
    pub connector_id: u32,
    /// A virtual one.
    pub connector_type: u32,
    pub connector_type_id: u32,
    /// Connected.
    pub connection: u32,
    pub mm_width: u32,
    pub mm_height: u32,
    pub encoder_id: u32,
    pub count_encoders: u32,
    pub count_modes: u32,
    pub fill_encoders: bool,
    /// The mode to write, if there is room for it.
    pub mode: Option<DrmModeInfo>,
}

/// Describes the connector.
pub fn std_handle_get_connector(
    encoders: CallerArray,
    modes: CallerArray,
    info: FramebufferInfo,
) -> (r: ConnectorReply)
    requires
        modes.takes_one() ==> native_total(info) * 60 <= u32::MAX,
    ensures
        r == (ConnectorReply {
            connector_id: 1,
            connector_type: 11,
            connector_type_id: 1,
            connection: 1,
            mm_width: 320,
            mm_height: 200,
            encoder_id: 1,
            count_encoders: 1,
            count_modes: 1,
            fill_encoders: encoders.takes_one(),
            mode: r.mode,
        }),
        r.mode is Some <==> modes.takes_one(),
        r.mode matches Some(m) ==> is_native_mode(m, info),
{
    let mode = if modes.fits_one() { Some(offered_mode(info)) } else { None };
    ConnectorReply {
        connector_id: 1,
        connector_type: 11,
        connector_type_id: 1,
        connection: 1,
        mm_width: 320,
        mm_height: 200,
        encoder_id: 1,
        count_encoders: 1,
        count_modes: 1,
        fill_encoders: encoders.fits_one(),
        mode,
    }
}

fn offered_mode(info: FramebufferInfo) -> (m: DrmModeInfo)
    requires
        native_total(info) * 60 <= u32::MAX,
    ensures
        is_native_mode(m, info),
{
    let w: u16 = (info.width % 65536) as u16;
    let h: u16 = (info.height % 65536) as u16;
    let htotal = add16(w, 160);
    let vtotal = add16(h, 40);
    assert(0 <= htotal * vtotal <= u32::MAX) by {
        assert(htotal * vtotal == native_total(info));
        assert(0 <= htotal * vtotal) by (nonlinear_arith)
            requires
                htotal >= 0,
                vtotal >= 0,
        ;
    }
    let clock: u32 = htotal as u32 * vtotal as u32 * 60 / 1000;
    DrmModeInfo {
        clock,
        hdisplay: w,
        hsync_start: add16(w, 48),
        hsync_end: add16(w, 80),
        htotal,
        hskew: 0,
        vdisplay: h,
        vsync_start: add16(h, 3),
        vsync_end: add16(h, 9),
        vtotal,
        vscan: 0,
        vrefresh: 60,
        flags: 0,
        type_: 0,
        name: fill_name("Native"),
    }
}

/// The pixels of a frame, blanking included.
pub open spec fn native_total(info: FramebufferInfo) -> int {
    sum16((info.width % 65536) as int, 160) * sum16((info.height % 65536) as int, 40)
}

/// A client that divides by the totals of the mode it is offered divides by more
/// than zero, and every part of a line and of a frame comes in order. The clock
/// is the largest number of kHz at which no more than 60 frames are drawn.
pub proof fn lemma_native_mode_is_usable(m: DrmModeInfo, info: FramebufferInfo)
    requires
        is_native_mode(m, info),
    ensures
        ({
            &&& m.hdisplay <= m.hsync_start <= m.hsync_end <= m.htotal
            &&& m.vdisplay <= m.vsync_start <= m.vsync_end <= m.vtotal
            &&& m.htotal >= 160
            &&& m.vtotal >= 40
            &&& m.clock * 1000 <= native_total(info) * 60 < (m.clock + 1) * 1000
        }),
{
    let t = native_total(info);
    assert(m.htotal * m.vtotal >= 0) by (nonlinear_arith)
        requires
            m.htotal >= 0,
            m.vtotal >= 0,
    ;
    assert(m.clock == t * 60 / 1000);
}

/// The encoder, a virtual one: its number, its kind, its crtc, and the crtcs it
/// could have.
pub fn std_handle_get_encoder() -> (r: (u32, u32, u32, u32))
    ensures
        r == (1u32, 3u32, 1u32, 1u32),
{
    (1, 3, 1, 1)
}

/// What is said of a crtc.
#[derive(Debug, Clone, Copy, PartialEq, Eq)]
pub struct CrtcReply {
    /// The framebuffer that it shows; zero for none.
    pub fb_id: u32,
    pub x: u32,
    pub y: u32,
    /// Width, height and refresh rate of its mode, if it has one.
    pub mode: Option<(u16, u16, u32)>,
}

/// Plane `i` is the first that belongs to a crtc.
pub open spec fn first_of_crtc(device: DrmDevice, crtc_id: DrmObjectId, i: int) -> bool {
    &&& 0 <= i < device.planes@.len()
    &&& device.planes@[i].crtc_id == Some(crtc_id)
    &&& forall|j: int| 0 <= j < i ==> (#[trigger] device.planes@[j]).crtc_id != Some(crtc_id)
}

/// The framebuffer that a crtc shows is that of the first plane that belongs to
/// it.
pub open spec fn shows(device: DrmDevice, crtc_id: DrmObjectId, fb_id: u32) -> bool {
    ||| exists|i: int| #[trigger]
        first_of_crtc(device, crtc_id, i) && fb_id == (match device.planes@[i].fb_id {
            Some(id) => id.0,
            None => 0,
        })
    ||| fb_id == 0 && forall|j: int|
        0 <= j < device.planes@.len() ==> (#[trigger] device.planes@[j]).crtc_id != Some(crtc_id)
}

fn shown_framebuffer(device: &DrmDevice, crtc_id: DrmObjectId) -> (fb_id: u32)
    ensures
        shows(*device, crtc_id, fb_id),
{
    let mut i: usize = 0;
    while i < device.planes.len()
        invariant
            i <= device.planes.len(),
            forall|j: int| 0 <= j < i ==> (#[trigger] device.planes@[j]).crtc_id != Some(crtc_id),
        decreases device.planes.len() - i,
    {
        let is_its = match device.planes[i].crtc_id {
            Some(c) => c.0 == crtc_id.0,
            None => false,
        };
        if is_its {
            assert(first_of_crtc(*device, crtc_id, i as int));
            return match device.planes[i].fb_id {
                Some(id) => id.0,
                None => 0,
            };
        }
        i += 1;
    }
    0
}

/// Describes a crtc, if there is one with that number.
pub fn std_handle_get_crtc(device: &DrmDevice, crtc_id: u32) -> (r: Result<CrtcReply, DriverError>)
    ensures
        none_with(device.crtcs@, DrmObjectId(crtc_id)) ==> r == Err::<CrtcReply, DriverError>(
            DriverError::NotFound,
        ),
        !none_with(device.crtcs@, DrmObjectId(crtc_id)) ==> r is Ok,
        r matches Ok(c) ==> {
            &&& shows(*device, DrmObjectId(crtc_id), c.fb_id)
            &&& exists|i: int| #[trigger]
                first_with(device.crtcs@, DrmObjectId(crtc_id), i) && c.x
                    == device.crtcs@[i].x as u32 && c.y == device.crtcs@[i].y as u32 && c.mode == (
                match device.crtcs@[i].mode {
                    Some(m) => Some((m.hdisplay, m.vdisplay, m.vrefresh)),
                    None => None,
                })
        },
{
    let id = DrmObjectId(crtc_id);
    let i = match position(&device.crtcs, id) {
        Some(i) => i,
        None => {
            return Err(DriverError::NotFound);
        },
    };
    assert(!none_with(device.crtcs@, id)) by {
        assert(device.crtcs@[i as int].obj_id() == id);
    }
    let fb_id = shown_framebuffer(device, id);
    let crtc = &device.crtcs[i];
    let mode = match &crtc.mode {
        Some(m) => Some((m.hdisplay, m.vdisplay, m.vrefresh)),
        None => None,
    };
    assert(first_with(device.crtcs@, id, i as int));
    Ok(CrtcReply { fb_id, x: crtc.x as u32, y: crtc.y as u32, mode })
}

/// A buffer that is drawn by software.
#[derive(Debug, Clone, Copy, PartialEq, Eq, Structural)]
pub struct DrmDumbBuffer {
    pub width: u32,
    pub height: u32,
    pub bpp: u32,
    pub pitch: u32,
    pub size: u32,
    pub handle: u32,
    /// Where it is mapped from: its address in memory.
    pub mmap_offset: usize,
}

/// The size of a buffer, and the pages it takes.
#[derive(Debug, Clone, Copy, PartialEq, Eq, Structural)]
pub struct DumbPlan {
    pub pitch: u32,
    pub size: u32,
    /// The buffer takes two to this power pages.
    pub order: usize,
}

/// The bytes of a row: every pixel takes whole bytes.
pub open spec fn dumb_pitch(width: u32, bpp: u32) -> int {
    width * ((bpp + 7) / 8)
}

/// The size of a buffer fits its fields.
pub open spec fn dumb_fits(width: u32, height: u32, bpp: u32) -> bool {
    &&& bpp + 7 <= u32::MAX
    &&& dumb_pitch(width, bpp) <= u32::MAX
    &&& dumb_pitch(width, bpp) * height <= u32::MAX
}

/// The size of a buffer and the pages it takes.
pub fn plan_dumb(width: u32, height: u32, bpp: u32) -> (p: DumbPlan)
    requires
        dumb_fits(width, height, bpp),
    ensures
        p.pitch == dumb_pitch(width, bpp),
        p.size == dumb_pitch(width, bpp) * height,
        is_order_for(pages_for(p.size as int), p.order as int),
        p.size <= block_bytes(p.order as int),
{
    let bytes: u32 = (bpp + 7) / 8;
    assert(0 <= width * bytes) by (nonlinear_arith)
        requires
            width >= 0,
            bytes >= 0,
    ;
    let pitch: u32 = width * bytes;
    assert(0 <= pitch * height) by (nonlinear_arith)
        requires
            pitch >= 0,
            height >= 0,
    ;
    let size: u32 = pitch * height;
    DumbPlan { pitch, size, order: order_for_bytes(size as u64) }
}

impl DrmDumbBuffer {
    /// Makes a buffer of the pages that were found for it, if any were.
    pub fn create(
        bos: &mut BoRegistry,
        width: u32,
        height: u32,
        bpp: u32,
        plan: DumbPlan,
        pages: Option<usize>,
    ) -> (r: Result<DrmDumbBuffer, DriverError>)
        requires
            dumb_fits(width, height, bpp),
            plan.pitch == dumb_pitch(width, bpp),
            plan.size == dumb_pitch(width, bpp) * height,
            plan.order < usize::BITS,
            block_bytes(plan.order as int) <= usize::MAX,
            old(bos)@.next_dumb_handle < u32::MAX,
        ensures
            pages is None ==> r == Err::<DrmDumbBuffer, DriverError>(DriverError::Io) && *final(bos)
                == *old(bos),
            pages is Some ==> r == Ok::<DrmDumbBuffer, DriverError>(
                DrmDumbBuffer {
                    width,
                    height,
                    bpp,
                    pitch: dumb_pitch(width, bpp) as u32,
                    size: (dumb_pitch(width, bpp) * height) as u32,
                    handle: old(bos)@.next_dumb_handle,
                    mmap_offset: pages->0,
                },
            ) && final(bos)@ == old(bos)@.add_dumb(pages->0, plan.order),
            old(bos).inv() && 0 < old(bos)@.next_obj < u32::MAX ==> final(bos).inv(),
    {
        match pages {
            None => Err(DriverError::Io),
            Some(phys) => {
                let handle = bos.add_dumb(phys, plan.order);
                Ok(
                    DrmDumbBuffer {
                        width,
                        height,
                        bpp,
                        pitch: plan.pitch,
                        size: plan.size,
                        handle,
                        mmap_offset: phys,
                    },
                )
            },
        }
    }
}

/// Where the buffer with the given handle is mapped from.
pub fn std_handle_map_dumb(bos: &BoRegistry, handle: u32) -> (r: Result<u64, DriverError>)
    ensures
        r == (match bos@.dumb_of(handle) {
            Some(b) => Ok::<u64, DriverError>(b.phys as u64),
            None => Err(DriverError::NotFound),
        }),
{
    match bos.dumb_lookup(handle) {
        Some(b) => Ok(b.phys as u64),
        None => Err(DriverError::NotFound),
    }
}

/// A buffer that was just made can be found by its handle, and mapped.
pub proof fn lemma_new_buffer_is_mapped(s: BoState, phys: usize, order: usize)
    ensures
        s.add_dumb(phys, order).dumb_of(s.next_dumb_handle) is Some,
        s.add_dumb(phys, order).dumb_of(s.next_dumb_handle)->0.phys == phys,
        s.add_dumb(phys, order).handed_out(phys as u64),
{
    let t = s.add_dumb(phys, order);
    assert(t.dumb.contains_key(s.next_dumb_handle));
    assert((phys as u64) as usize == phys);
}

/// A resource of the graphics processor to make, and the pages to put behind it.
#[derive(Debug, Clone, Copy, PartialEq, Eq, Structural)]
pub struct GpuBacking {
    pub res_id: u32,
    pub width: u32,
    pub height: u32,
    pub phys: u64,
    pub bytes: u32,
}

/// The resource of a buffer: its number keeps clear of the console's.
pub open spec fn backing_of(handle: u32, width: u32, height: u32, phys: u64) -> GpuBacking {
    GpuBacking {
        res_id: (handle + 10) as u32,
        width,
        height,
        phys,
        bytes: (width * height * 4) as u32,
    }
}

/// A buffer can be described to the graphics processor.
pub open spec fn backing_fits(handle: u32, width: u32, height: u32) -> bool {
    handle + 10 <= u32::MAX && width * height * 4 <= u32::MAX
}

/// Registering a framebuffer made the device `a` into `b`.
pub open spec fn fb_registered(
    a: DrmDevice,
    b: DrmDevice,
    id: u32,
    width: u32,
    height: u32,
    pitch: u32,
    handle: u32,
    phys: u64,
) -> bool {
    let fb = b.framebuffers@[id];
    &&& fb.id == DrmObjectId(id)
    &&& fb.width == width && fb.height == height && fb.pitch == pitch
    &&& fb.format == DrmFormat::Xrgb8888
    &&& fb.modifier == 0
    &&& fb.handles@ == seq![handle, 0u32, 0, 0]
    &&& fb.offsets@ == seq![0u32, 0, 0, 0]
    &&& fb.pitches@ == seq![pitch, 0u32, 0, 0]
    &&& fb.physical_addresses@ == seq![phys, 0u64, 0, 0]
    &&& b.framebuffers@ == a.framebuffers@.insert(id, fb)
    &&& b == (DrmDevice { framebuffers: b.framebuffers, ..a })
}

/// A framebuffer was registered over a buffer: under the next number, and, where
/// there is a graphics processor, with its resource in place of the buffer.
pub open spec fn fb_added(
    a: DrmDevice,
    b: DrmDevice,
    id: u32,
    width: u32,
    height: u32,
    pitch: u32,
    handle: u32,
    phys: u64,
    backing: Option<GpuBacking>,
    gpu: bool,
) -> bool {
    &&& backing == (if gpu {
        Some(backing_of(handle, width, height, phys))
    } else {
        None
    })
    &&& fb_registered(
        a,
        b,
        id,
        width,
        height,
        pitch,
        if gpu { (handle + 10) as u32 } else { handle },
        phys,
    )
}

fn add_fb(
    device: &mut DrmDevice,
    ids: &mut IdCounter,
    width: u32,
    height: u32,
    pitch: u32,
    handle: u32,
    phys: u64,
    gpu: bool,
) -> (r: (u32, Option<GpuBacking>))
    requires
        old(ids).next < u32::MAX,
        gpu ==> backing_fits(handle, width, height),
    ensures
        r.0 == old(ids).next,
        final(ids).next == old(ids).next + 1,
        fb_added(
            *old(device),
            *final(device),
            r.0,
            width,
            height,
            pitch,
            handle,
            phys,
            r.1,
            gpu,
        ),
{
    let mut fb = DrmFramebuffer::new(width, height, DrmFormat::Xrgb8888, handle, pitch, ids);
    fb.physical_addresses[0] = phys;
    let backing = if gpu {
        assert(0 <= width * height && width * height * 4 == 4 * (width * height))
            by (nonlinear_arith)
            requires
                width >= 0,
                height >= 0,
        ;
        let res_id: u32 = handle + 10;
        fb.handles[0] = res_id;
        Some(GpuBacking { res_id, width, height, phys, bytes: width * height * 4 })
    } else {
        None
    };
    proof {
        assert(fb.physical_addresses@ =~= seq![phys, 0u64, 0, 0]);
        assert(fb.handles@ =~= seq![if gpu { (handle + 10) as u32 } else { handle }, 0u32, 0, 0]);
    }
    let id = device.add_framebuffer(fb);
    (id.0, backing)
}

/// What a client of the system's own interface gets for a framebuffer: its
/// number, no pointer, and where to map it from, in the low 32 bits.
#[derive(Debug, Clone, Copy, PartialEq, Eq, Structural)]
pub struct CreatedFramebuffer {
    pub fb_id: u32,
    pub pointer: u32,
    pub mmap_offset: u32,
    pub backing: Option<GpuBacking>,
}

/// Makes a framebuffer over a new buffer of 32 bits per pixel.
pub fn handle_create_framebuffer(
    device: &mut DrmDevice,
    ids: &mut IdCounter,
    bos: &mut BoRegistry,
    width: u32,
    height: u32,
    plan: DumbPlan,
    pages: Option<usize>,
    gpu: bool,
) -> (r: Result<CreatedFramebuffer, DriverError>)
    requires
        dumb_fits(width, height, 32),
        plan.pitch == dumb_pitch(width, 32),
        plan.size == dumb_pitch(width, 32) * height,
        plan.order < usize::BITS,
        block_bytes(plan.order as int) <= usize::MAX,
        old(bos)@.next_dumb_handle < u32::MAX,
        gpu ==> old(bos)@.next_dumb_handle + 10 <= u32::MAX,
        old(ids).next < u32::MAX,
    ensures
        pages is None ==> {
            &&& r == Err::<CreatedFramebuffer, DriverError>(DriverError::Io)
            &&& *final(device) == *old(device)
            &&& *final(bos) == *old(bos)
            &&& *final(ids) == *old(ids)
        },
        pages matches Some(phys) ==> {
            &&& r matches Ok(c)
            &&& c.fb_id == old(ids).next
            &&& c.pointer == 0
            &&& c.mmap_offset == phys as u64 % 0x1_0000_0000
            &&& final(ids).next == old(ids).next + 1
            &&& final(bos)@ == old(bos)@.add_dumb(phys, plan.order)
            &&& fb_added(
                *old(device),
                *final(device),
                c.fb_id,
                width,
                height,
                (width * 4) as u32,
                old(bos)@.next_dumb_handle,
                phys as u64,
                c.backing,
                gpu,
            )
        },
        old(bos).inv() && 0 < old(bos)@.next_obj < u32::MAX ==> final(bos).inv(),
{
    let buffer = match DrmDumbBuffer::create(bos, width, height, 32, plan, pages) {
        Ok(b) => b,
        Err(e) => {
            return Err(e);
        },
    };
    assert(dumb_pitch(width, 32) == width * 4);
    assert(width * height * 4 == dumb_pitch(width, 32) * height) by (nonlinear_arith)
        requires
            dumb_pitch(width, 32) == width * 4,
    ;
    let phys: u64 = buffer.mmap_offset as u64;
    let (fb_id, backing) = add_fb(
        device,
        ids,
        width,
        height,
        width * 4,
        buffer.handle,
        phys,
        gpu,
    );
    Ok(
        CreatedFramebuffer {
            fb_id,
            pointer: 0,
            mmap_offset: (phys % 0x1_0000_0000) as u32,
            backing,
        },
    )
}

/// Where the pages of a buffer are; zero if there is no such buffer.
pub open spec fn pages_of(s: BoState, handle: u32) -> u64 {
    match s.dumb_of(handle) {
        Some(b) => b.phys as u64,
        None => 0,
    }
}

fn dumb_pages(bos: &BoRegistry, handle: u32) -> (phys: u64)
    ensures
        phys == pages_of(bos@, handle),
{
    match bos.dumb_lookup(handle) {
        Some(b) => b.phys as u64,
        None => 0,
    }
}

/// A request for a framebuffer over a buffer.
#[derive(Debug, Clone, Copy, PartialEq, Eq, Structural)]
pub struct FbRequest {
    pub width: u32,
    pub height: u32,
    pub pitch: u32,
    pub handle: u32,
}

/// Makes a framebuffer over a buffer, and gives its number.
pub fn std_handle_addfb(
    device: &mut DrmDevice,
    ids: &mut IdCounter,
    bos: &BoRegistry,
    req: &FbRequest,
    gpu: bool,
) -> (r: (u32, Option<GpuBacking>))
    requires
        old(ids).next < u32::MAX,
        gpu ==> backing_fits(req.handle, req.width, req.height),
    ensures
        r.0 == old(ids).next,
        final(ids).next == old(ids).next + 1,
        fb_added(
            *old(device),
            *final(device),
            r.0,
            req.width,
            req.height,
            req.pitch,
            req.handle,
            pages_of(bos@, req.handle),
            r.1,
            gpu,
        ),
{
    let phys = dumb_pages(bos, req.handle);
    add_fb(device, ids, req.width, req.height, req.pitch, req.handle, phys, gpu)
}

/// The row length of a request that leaves it open.
pub open spec fn default_pitch(req: FbRequest) -> int {
    if req.pitch != 0 {
        req.pitch as int
    } else {
        req.width * 4
    }
}

/// Makes a framebuffer over a buffer in the newer form, where a row length of
/// zero stands for four bytes per pixel.
pub fn std_handle_addfb2(
    device: &mut DrmDevice,
    ids: &mut IdCounter,
    bos: &BoRegistry,
    req: &FbRequest,
    gpu: bool,
) -> (r: (u32, Option<GpuBacking>))
    requires
        old(ids).next < u32::MAX,
        gpu ==> backing_fits(req.handle, req.width, req.height),
        default_pitch(*req) <= u32::MAX,
    ensures
        r.0 == old(ids).next,
        final(ids).next == old(ids).next + 1,
        fb_added(
            *old(device),
            *final(device),
            r.0,
            req.width,
            req.height,
            default_pitch(*req) as u32,
            req.handle,
            pages_of(bos@, req.handle),
            r.1,
            gpu,
        ),
{
    let pitch: u32 = if req.pitch != 0 { req.pitch } else { req.width * 4 };
    let phys = dumb_pages(bos, req.handle);
    add_fb(device, ids, req.width, req.height, pitch, req.handle, phys, gpu)
}

/// Forgets a framebuffer, if there is one with that number.
pub fn std_handle_rmfb(device: &mut DrmDevice, fb_id: u32)
    ensures
        final(device).framebuffers@ == old(device).framebuffers@.remove(fb_id),
        *final(device) == (DrmDevice { framebuffers: final(device).framebuffers, ..*old(device) }),
{
    let _ = device.remove_framebuffer(DrmObjectId(fb_id));
}

/// What to bring to the screen of a framebuffer that was drawn to: its resource
/// and its whole size. Nothing if there is none with that number.
pub fn std_handle_dirtyfb(device: &DrmDevice, fb_id: u32) -> (r: Option<(u32, u32, u32)>)
    ensures
        r is Some <==> device.framebuffers@.contains_key(fb_id),
        r matches Some(f) ==> f == (
            device.framebuffers@[fb_id].handles@[0],
            device.framebuffers@[fb_id].width,
            device.framebuffers@[fb_id].height,
        ),
{
    match device.get_framebuffer(DrmObjectId(fb_id)) {
        Some(fb) => Some((fb.handles[0], fb.width, fb.height)),
        None => None,
    }
}

/// A request to set a crtc.
#[derive(Debug, Clone, Copy, PartialEq, Eq, Structural)]
pub struct SetCrtc {
    pub crtc_id: u32,
    pub fb_id: u32,
    pub x: u32,
    pub y: u32,
    pub hdisplay: u16,
    pub vdisplay: u16,
    pub vrefresh: u32,
}

/// The size of a framebuffer, or another size where there is none with that
/// number.
pub open spec fn source_size(device: DrmDevice, fb_id: u32, other: (u32, u32)) -> (u32, u32) {
    if device.framebuffers@.contains_key(fb_id) {
        (device.framebuffers@[fb_id].width, device.framebuffers@[fb_id].height)
    } else {
        other
    }
}

fn source_of(device: &DrmDevice, fb_id: u32, other: (u32, u32)) -> (size: (u32, u32))
    ensures
        size == source_size(*device, fb_id, other),
{
    match device.get_framebuffer(DrmObjectId(fb_id)) {
        Some(fb) => (fb.width, fb.height),
        None => other,
    }
}

/// The words that show the framebuffer of a request.
pub open spec fn flip_words(device: DrmDevice, req: SetCrtc) -> Seq<u32> {
    let size = source_size(device, req.fb_id, (req.hdisplay as u32, req.vdisplay as u32));
    seq![req.fb_id, 0, size.0, size.1]
}

/// The framebuffer of a request was put on the screen, whatever came of that.
pub open spec fn put_on_screen(
    a: DrmDevice,
    b: DrmDevice,
    req: SetCrtc,
    info: FramebufferInfo,
    hw: Option<HardwareFb>,
    out: CommitOutcome,
) -> bool {
    if req.fb_id != 0 {
        exists|shown: CommitOutcome| #[trigger]
            flipped(a, b, flip_words(a, req), info, hw, shown) && out.copies@ == shown.copies@
    } else {
        b == a && out.copies@.len() == 0
    }
}

/// Setting a crtc made the device `a` into `b`: the mode and the framebuffer were
/// set, and if that succeeded the framebuffer was put on the screen at once.
pub open spec fn crtc_shown(
    a: DrmDevice,
    b: DrmDevice,
    req: SetCrtc,
    info: FramebufferInfo,
    hw: Option<HardwareFb>,
    out: CommitOutcome,
) -> bool {
    exists|m: DrmModeInfo, mid: DrmDevice|
        {
            &&& m.is_mode(req.hdisplay, req.vdisplay, req.vrefresh)
            &&& #[trigger] crtc_set(
                a,
                mid,
                DrmObjectId(req.crtc_id),
                Some(m),
                req.x,
                req.y,
                Some(DrmObjectId(req.fb_id)),
                out.result,
            )
            &&& if out.result is Ok {
                put_on_screen(mid, b, req, info, hw, out)
            } else {
                b == mid && out.copies@.len() == 0
            }
        }
}

/// Sets the mode of a crtc and shows a framebuffer on it.
pub fn std_handle_set_crtc(
    device: &mut DrmDevice,
    req: &SetCrtc,
    info: FramebufferInfo,
    hw: Option<HardwareFb>,
) -> (out: CommitOutcome)
    requires
        timing_fits(req.hdisplay as int, req.vdisplay as int, req.vrefresh as int),
    ensures
        crtc_shown(*old(device), *final(device), *req, info, hw, out),
{
    let ghost start = *device;
    let m = DrmModeInfo::new(req.hdisplay, req.vdisplay, req.vrefresh);
    let set = device.set_crtc(
        DrmObjectId(req.crtc_id),
        Some(m),
        req.x,
        req.y,
        &[],
        Some(DrmObjectId(req.fb_id)),
    );
    let ghost mid = *device;
    assert(crtc_set(
        start,
        mid,
        DrmObjectId(req.crtc_id),
        Some(m),
        req.x,
        req.y,
        Some(DrmObjectId(req.fb_id)),
        set,
    ));
    if set.is_err() || req.fb_id == 0 {
        return CommitOutcome { result: set, copies: Vec::new() };
    }
    let (w, h) = source_of(device, req.fb_id, (req.hdisplay as u32, req.vdisplay as u32));
    let flip = [req.fb_id, 0, w, h];
    let shown = handle_flip_page(device, flip, info, hw);
    let ghost whole = shown;
    let out = CommitOutcome { result: set, copies: shown.copies };
    proof {
        assert(flip@ =~= flip_words(mid, *req));
        assert(flipped(mid, *device, flip_words(mid, *req), info, hw, whole));
        assert(put_on_screen(mid, *device, *req, info, hw, out));
    }
    out
}

/// A request to show a framebuffer.
#[derive(Debug, Clone, Copy, PartialEq, Eq, Structural)]
pub struct PageFlip {
    pub crtc_id: u32,
    pub fb_id: u32,
    pub flags: u32,
    pub user_data: u64,
}

/// The queues once the completion of a flip was queued at tick `now`.
pub open spec fn with_event(s: FlipState, flip: PageFlip, now: u64) -> FlipState {
    FlipState {
        pending: s.pending.push(event_at(now, s.sequence, flip.crtc_id, flip.user_data)),
        sequence: s.sequence.wrapping_add(1),
        ..s
    }
}

/// Shows a framebuffer. If that succeeds, and the client asked for it, an event
/// will tell of it.
pub fn std_handle_page_flip(
    device: &mut DrmDevice,
    events: &mut FlipQueue,
    flip: &PageFlip,
    now: u64,
    info: FramebufferInfo,
    hw: Option<HardwareFb>,
) -> (out: CommitOutcome)
    ensures
        ({
            let size = source_size(*old(device), flip.fb_id, (320, 200));
            flipped(
                *old(device),
                *final(device),
                seq![flip.fb_id, flip.flags, size.0, size.1],
                info,
                hw,
                out,
            )
        }),
        final(events)@ == (if out.result is Ok && flip.flags & DRM_MODE_PAGE_FLIP_EVENT != 0 {
            with_event(old(events)@, *flip, now)
        } else {
            old(events)@
        }),
{
    let (w, h) = source_of(device, flip.fb_id, (320, 200));
    let words = [flip.fb_id, flip.flags, w, h];
    let out = handle_flip_page(device, words, info, hw);
    assert(words@ =~= seq![flip.fb_id, flip.flags, w, h]);
    if out.result.is_ok() && flip.flags & DRM_MODE_PAGE_FLIP_EVENT != 0 {
        events.queue_flip_event(flip.crtc_id, flip.user_data, now);
    }
    out
}

/// Shows a framebuffer in full, as the commit of a plane without damage does. One
/// that is not registered counts as 320 by 200.
pub fn present_full(
    device: &mut DrmDevice,
    fb_id: u32,
    info: FramebufferInfo,
    hw: Option<HardwareFb>,
) -> (out: CommitOutcome)
    ensures
        ({
            let size = source_size(*old(device), fb_id, (320, 200));
            flipped(
                *old(device),
                *final(device),
                seq![fb_id, 0u32, size.0, size.1],
                info,
                hw,
                out,
            )
        }),
{
    let (w, h) = source_of(device, fb_id, (320, 200));
    let words = [fb_id, 0u32, w, h];
    assert(words@ =~= seq![fb_id, 0u32, w, h]);
    handle_flip_page(device, words, info, hw)
}

/// A flip that a client asked an event for gives one event, behind all that are
/// waiting; a flip that fails gives none.
pub proof fn lemma_flip_gives_one_event(s: FlipState, flip: PageFlip, now: u64)
    ensures
        with_event(s, flip, now).unread() == s.unread().push(
            event_at(now, s.sequence, flip.crtc_id, flip.user_data),
        ),
        with_event(s, flip, now).ready == s.ready,
{
    assert(with_event(s, flip, now).unread() =~= s.unread().push(
        event_at(now, s.sequence, flip.crtc_id, flip.user_data),
    ));
}

/// The screen as the frame buffer device describes it: its size, its virtual
/// size, no offset, 32 bits per pixel, in colour.
pub fn handle_fbioget_vscreeninfo(boot: Option<(u64, u32, u32, u32)>) -> (data: [u32; 8])
    ensures
        ({
            let (w, h) = match boot {
                Some(b) => (b.1, b.2),
                None => (1280u32, 800u32),
            };
            data@ == seq![w, h, w, h, 0u32, 0, 32, 0]
        }),
{
    let (w, h) = match boot {
        Some(b) => (b.1, b.2),
        None => (1280u32, 800u32),
    };
    let data = [w, h, w, h, 0, 0, 32, 0];
    assert(data@ =~= seq![w, h, w, h, 0u32, 0, 32, 0]);
    data
}

/// What a mapping through the device shows: the boot framebuffer at offset zero,
/// and at any other offset the memory with that address, if this device handed
/// it out.
pub fn handle_ioctl_mmap(bos: &BoRegistry, requested: u64, fb_base: u64) -> (r: Result<
    u64,
    DriverError,
>)
    ensures
        r == (if requested == 0 {
            if fb_base == 0 {
                Err::<u64, DriverError>(DriverError::NotFound)
            } else {
                Ok(fb_base)
            }
        } else if bos@.handed_out(requested) {
            Ok(requested)
        } else {
            Err(DriverError::InvalidParameter)
        }),
{
    if requested == 0 {
        if fb_base == 0 {
            Err(DriverError::NotFound)
        } else {
            Ok(fb_base)
        }
    } else if bos.mapping_known(requested) {
        Ok(requested)
    } else {
        Err(DriverError::InvalidParameter)
    }
}

/// No more than this can be mapped of the boot framebuffer.
pub const MAX_MMAP_BYTES: usize = 0x1000_0000;

impl DrmDeviceInterface {
    /// What a mapping inside the kernel shows: the memory at the offset, or at
    /// offset zero the boot framebuffer.
    pub fn handle_mmap(&mut self, offset: usize, size: usize, fb_phys: u64) -> (r: Result<
        u64,
        DriverError,
    >)
        ensures
            *final(self) == *old(self),
            r == (if offset != 0 {
                Ok::<u64, DriverError>(offset as u64)
            } else if fb_phys == 0 {
                Err(DriverError::NotFound)
            } else if size > MAX_MMAP_BYTES {
                Err(DriverError::Unsupported)
            } else {
                Ok(fb_phys)
            }),
    {
        if offset != 0 {
            return Ok(offset as u64);
        }
        if fb_phys == 0 {
            return Err(DriverError::NotFound);
        }
        if size > MAX_MMAP_BYTES {
            return Err(DriverError::Unsupported);
        }
        Ok(fb_phys)
    }
}

/// The framebuffer that is written to: the one that the first plane shows, or
/// else the one with the lowest number.
pub open spec fn is_written(device: DrmDevice, id: u32) -> bool {
    if device.planes@.len() > 0 && device.planes@[0].fb_id is Some {
        device.planes@[0].fb_id == Some(DrmObjectId(id))
    } else {
        &&& device.framebuffers@.contains_key(id)
        &&& forall|k: u32| #[trigger] device.framebuffers@.contains_key(k) ==> id <= k
    }
}

/// No framebuffer can be written to.
pub open spec fn none_written(device: DrmDevice) -> bool {
    &&& device.planes@.len() > 0 ==> device.planes@[0].fb_id is None
    &&& forall|k: u32| !#[trigger] device.framebuffers@.contains_key(k)
}

/// The bytes of a framebuffer.
pub open spec fn fb_bytes(fb: DrmFramebuffer) -> int {
    fb.height * fb.pitch
}

/// What a write comes to.
pub struct WriteOutcome {
    /// How many bytes were taken.
    pub result: Result<usize, DriverError>,
    /// Where to copy them, and how many.
    pub target: Option<(u64, usize)>,
    /// What to bring to the screen after that.
    pub show: CommitOutcome,
}

fn written_framebuffer(device: &DrmDevice) -> (r: Option<u32>)
    ensures
        r is None <==> none_written(*device),
        r matches Some(id) ==> is_written(*device, id),
{
    if device.planes.len() > 0 {
        match device.planes[0].fb_id {
            Some(id) => {
                return Some(id.0);
            },
            None => {},
        }
    }
    let all = entries_u32(&device.framebuffers);
    if all.len() == 0 {
        assert(lists_u32(all@, device.framebuffers@));
        assert forall|k: u32| !#[trigger] device.framebuffers@.contains_key(k) by {
            if device.framebuffers@.contains_key(k) {
                let i = choose|i: int|
                    0 <= i < all@.len() && #[trigger] all@[i] == (k, device.framebuffers@[k]);
                assert(0 <= i < all@.len());
            }
        }
        return None;
    }
    let (first, fb) = all[0];
    proof {
        assert(all@[0] == (first, fb));
        assert(device.framebuffers@.contains_key(first));
        assert forall|k: u32| #[trigger] device.framebuffers@.contains_key(k) implies first
            <= k by {
            let i = choose|i: int|
                0 <= i < all@.len() && #[trigger] all@[i] == (k, device.framebuffers@[k]);
            if i > 0 {
                assert(all@[0].0 < all@[i].0);
            }
        }
    }
    Some(first)
}

/// The words that show a framebuffer as a whole.
pub open spec fn whole_words(fb: DrmFramebuffer) -> Seq<u32> {
    seq![fb.id.0, 0, fb.width, fb.height]
}

/// Writing `len` bytes to the framebuffer `id` made the device `a` into `b`.
pub open spec fn written(
    a: DrmDevice,
    b: DrmDevice,
    id: u32,
    len: usize,
    info: FramebufferInfo,
    hw: Option<HardwareFb>,
    out: WriteOutcome,
) -> bool {
    let fb = a.framebuffers@[id];
    let phys = fb.physical_addresses@[0];
    let count = if len <= fb_bytes(fb) { len as int } else { fb_bytes(fb) };
    if !a.framebuffers@.contains_key(id) {
        &&& out.result == Err::<usize, DriverError>(DriverError::NotFound)
        &&& out.target is None
        &&& b == a
        &&& out.show.copies@.len() == 0
    } else if phys == 0 {
        &&& out.result == Err::<usize, DriverError>(DriverError::Unsupported)
        &&& out.target is None
        &&& b == a
        &&& out.show.copies@.len() == 0
    } else {
        &&& out.target == Some((phys, count as usize))
        &&& flipped(a, b, whole_words(DrmFramebuffer { id: DrmObjectId(id), ..fb }), info, hw, out.show)
        &&& out.result == (match out.show.result {
            Ok(()) => Ok::<usize, DriverError>(count as usize),
            Err(e) => Err(e),
        })
    }
}

impl DrmDeviceInterface {
    /// Writes pixels to the framebuffer that is shown, or before the first flip
    /// to the first one there is, and brings it to the screen.
    pub fn handle_write(
        &mut self,
        device: &mut DrmDevice,
        len: usize,
        info: FramebufferInfo,
        hw: Option<HardwareFb>,
    ) -> (out: WriteOutcome)
        requires
            forall|id: u32| #[trigger]
                is_written(*old(device), id) && old(device).framebuffers@.contains_key(id)
                    ==> fb_bytes(old(device).framebuffers@[id]) <= u32::MAX,
        ensures
            *final(self) == *old(self),
            none_written(*old(device)) ==> {
                &&& out.result == Err::<usize, DriverError>(DriverError::Unsupported)
                &&& out.target is None
                &&& *final(device) == *old(device)
                &&& out.show.copies@.len() == 0
            },
            !none_written(*old(device)) ==> exists|id: u32| #[trigger]
                is_written(*old(device), id) && written(
                    *old(device),
                    *final(device),
                    id,
                    len,
                    info,
                    hw,
                    out,
                ),
    {
        let id = match written_framebuffer(device) {
            Some(id) => id,
            None => {
                return WriteOutcome {
                    result: Err(DriverError::Unsupported),
                    target: None,
                    show: CommitOutcome { result: Ok(()), copies: Vec::new() },
                };
            },
        };
        assert(is_written(*old(device), id));
        let fb = match device.get_framebuffer(DrmObjectId(id)) {
            Some(fb) => fb,
            None => {
                return WriteOutcome {
                    result: Err(DriverError::NotFound),
                    target: None,
                    show: CommitOutcome { result: Ok(()), copies: Vec::new() },
                };
            },
        };
        let phys = fb.physical_addresses[0];
        if phys == 0 {
            return WriteOutcome {
                result: Err(DriverError::Unsupported),
                target: None,
                show: CommitOutcome { result: Ok(()), copies: Vec::new() },
            };
        }
        let size: usize = fb.size() as usize;
        let count: usize = if len <= size { len } else { size };
        let words = [id, 0, fb.width, fb.height];
        assert(words@ =~= whole_words(DrmFramebuffer { id: DrmObjectId(id), ..fb }));
        let show = handle_flip_page(device, words, info, hw);
        let result = match show.result {
            Ok(()) => Ok(count),
            Err(e) => Err(e),
        };
        let out = WriteOutcome { result, target: Some((phys, count)), show };
        assert(written(*old(device), *device, id, len, info, hw, out));
        out
    }
}

/// The request that a message makes: its number, and its argument.
pub fn request_of(msg: &Message) -> (r: (u32, u64))
    ensures
        r.0 == msg.tag % 0x1_0000_0000,
        r.1 == u64_at(msg.data@, 0),
{
    ((msg.tag % 0x1_0000_0000) as u32, read_u64(msg.data.as_slice(), 0))
}

/// The reply to a request: tag 0 and the result, or tag 1 for any error.
pub fn reply_of(result: Result<u64, DriverError>) -> (m: Message)
    ensures
        match result {
            Ok(v) => m.tag == 0 && m.data@ == padded(le64(v)),
            Err(_) => m.tag == 1 && m.data@ == padded(Seq::empty()),
        },
{
    match result {
        Ok(v) => {
            let mut bytes: Vec<u8> = Vec::new();
            push_u64(&mut bytes, v);
            assert(bytes@ =~= le64(v));
            Message::holding(0, &bytes)
        },
        Err(_) => {
            let mut m = Message::empty();
            m.tag = 1;
            m
        },
    }
}

/// The result of a request reads back from its reply.
pub proof fn lemma_result_reads_back(v: u64)
    ensures
        u64_at(padded(le64(v)), 0) == v,
{
    let p = padded(le64(v));
    let rest = Seq::new(48, |i: int| 0u8);
    assert(p =~= Seq::<u8>::empty() + le64(v) + rest);
    crate::bytes::lemma_read_of_write64(v, Seq::empty(), rest);
}

/// What a transfer between the memories of the device and the host comes to: it
/// takes a device.
pub fn transfer_result(present: bool) -> (r: Result<(), DriverError>)
    ensures
        r == (if present {
            Ok::<(), DriverError>(())
        } else {
            Err(DriverError::NotFound)
        }),
{
    if present {
        Ok(())
    } else {
        Err(DriverError::NotFound)
    }
}

} // verus!
