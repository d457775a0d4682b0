//! The display driver's message interface: commands on the device, and the
//! bytes of its answers.
use crate::bytes::{
    le16, le32, lemma_read_of_write32, push_u16, push_u32, read_u32, u16_at, u32_at,
};
use crate::drm::auth::{
    authenticate_session, can_perform, create_session, drop_master, set_master, AuthError,
    DrmAuthToken, DrmCapabilities, DrmOperation, Sessions,
};
use crate::drm::device::{
    committed, crtc_set, first_with, ids_of, init_drm, is_set_up, none_with,
    CommitOutcome, DrmDevice, DrmResources,
};
use crate::drm::framebuffer::{DrmFormat, DrmFramebuffer};
use crate::drm::objects::{DrmAtomicState, DrmConnector, DrmCrtc, DrmModeInfo, DrmObjectId};
use crate::drm_console::DrmContext;
use crate::message::{padded, Message};
use crate::DriverError;
use vstd::prelude::*;
use vstd::string::*;

verus! {

/// What the driver says of itself.
pub struct DrmVersion {
    pub version_major: i32,
    pub version_minor: i32,
    pub version_patchlevel: i32,
    pub name: &'static str,
    pub date: &'static str,
    pub desc: &'static str,
}

/// A text with a zero behind it.
pub open spec fn text_bytes(s: &str) -> Seq<u8> {
    s.spec_bytes().push(0)
}

/// A version as bytes: three numbers and three texts.
pub open spec fn version_bytes(v: DrmVersion) -> Seq<u8> {
    le32(v.version_major as u32) + le32(v.version_minor as u32) + le32(v.version_patchlevel as u32)
        + text_bytes(v.name) + text_bytes(v.date) + text_bytes(v.desc)
}

/// A mode as bytes, ending in its name.
pub open spec fn mode_bytes(m: DrmModeInfo) -> Seq<u8> {
    mode_numbers(m) + m.name@
}

/// The numbers of a mode: its timing, the refresh rate, flags and type.
pub open spec fn mode_numbers(m: DrmModeInfo) -> Seq<u8> {
    mode_timing(m) + le32(m.vrefresh) + le32(m.flags) + le32(m.type_)
}

/// The timing of a mode: the clock, columns and rows.
pub open spec fn mode_timing(m: DrmModeInfo) -> Seq<u8> {
    le32(m.clock) + le16(m.hdisplay) + le16(m.hsync_start) + le16(m.hsync_end) + le16(m.htotal)
        + le16(m.hskew) + le16(m.vdisplay) + le16(m.vsync_start) + le16(m.vsync_end) + le16(
        m.vtotal,
    ) + le16(m.vscan)
}

/// The first `k` ids of a list as bytes.
pub open spec fn id_bytes(ids: Seq<DrmObjectId>, k: int) -> Seq<u8>
    decreases k,
{
    if k <= 0 {
        Seq::empty()
    } else {
        id_bytes(ids, k - 1) + le32(ids[k - 1].0)
    }
}

/// The first `k` modes of a list as bytes.
pub open spec fn modes_bytes(modes: Seq<DrmModeInfo>, k: int) -> Seq<u8>
    decreases k,
{
    if k <= 0 {
        Seq::empty()
    } else {
        modes_bytes(modes, k - 1) + mode_bytes(modes[k - 1])
    }
}

/// The device's resources as bytes: how many there are of each kind, the limits
/// of the display's size, and the ids.
pub open spec fn resources_bytes(r: DrmResources) -> Seq<u8> {
    le32(r.crtcs@.len() as u32) + le32(r.connectors@.len() as u32) + le32(
        r.encoders@.len() as u32,
    ) + le32(r.min_width) + le32(r.max_width) + le32(r.min_height) + le32(r.max_height) + id_bytes(
        r.crtcs@,
        r.crtcs@.len() as int,
    ) + id_bytes(r.connectors@, r.connectors@.len() as int) + id_bytes(
        r.encoders@,
        r.encoders@.len() as int,
    )
}

/// A crtc as bytes; its mode follows a one, and a zero says that it has none.
pub open spec fn crtc_bytes(c: DrmCrtc) -> Seq<u8> {
    le32(c.id.0) + le32(c.x as u32) + le32(c.y as u32) + le32(c.gamma_size) + match c.mode {
        Some(m) => seq![1u8] + mode_bytes(m),
        None => seq![0u8],
    }
}

/// A connector as bytes, with its modes.
pub open spec fn connector_bytes(c: DrmConnector) -> Seq<u8> {
    le32(c.id.0) + le32(c.connector_type.number()) + le32(c.connector_type_id) + le32(
        c.status.number(),
    ) + le32(c.modes@.len() as u32) + modes_bytes(c.modes@, c.modes@.len() as int)
}

/// Appends some bytes.
fn push_all(out: &mut Vec<u8>, bytes: &[u8])
    ensures
        final(out)@ == old(out)@ + bytes@,
{
    let ghost before = out@;
    let mut i: usize = 0;
    assert(out@ =~= before + bytes@.take(0));
    while i < bytes.len()
        invariant
            i <= bytes@.len(),
            out@ == before + bytes@.take(i as int),
        decreases bytes@.len() - i,
    {
        out.push(bytes[i]);
        i = i + 1;
        assert(out@ =~= before + bytes@.take(i as int));
    }
    assert(bytes@.take(i as int) =~= bytes@);
}

fn push_text(out: &mut Vec<u8>, s: &str)
    ensures
        final(out)@ == old(out)@ + text_bytes(s),
{
    let ghost before = out@;
    push_all(out, s.as_bytes());
    out.push(0);
    assert(out@ =~= before + text_bytes(s));
}

impl DrmVersion {
    pub fn serialize(&self) -> (data: Vec<u8>)
        ensures
            data@ == version_bytes(*self),
    {
        let mut data: Vec<u8> = Vec::new();
        push_u32(&mut data, self.version_major as u32);
        push_u32(&mut data, self.version_minor as u32);
        push_u32(&mut data, self.version_patchlevel as u32);
        push_text(&mut data, self.name);
        push_text(&mut data, self.date);
        push_text(&mut data, self.desc);
        assert(data@ =~= version_bytes(*self));
        data
    }
}

fn push_mode(out: &mut Vec<u8>, m: &DrmModeInfo)
    ensures
        final(out)@ == old(out)@ + mode_bytes(*m),
{
    let ghost before = out@;
    push_u32(out, m.clock);
    push_u16(out, m.hdisplay);
    push_u16(out, m.hsync_start);
    push_u16(out, m.hsync_end);
    push_u16(out, m.htotal);
    push_u16(out, m.hskew);
    push_u16(out, m.vdisplay);
    push_u16(out, m.vsync_start);
    push_u16(out, m.vsync_end);
    push_u16(out, m.vtotal);
    push_u16(out, m.vscan);
    push_u32(out, m.vrefresh);
    push_u32(out, m.flags);
    push_u32(out, m.type_);
    push_all(out, &m.name);
    assert(out@ =~= before + mode_bytes(*m));
}

fn push_ids(out: &mut Vec<u8>, ids: &Vec<DrmObjectId>)
    ensures
        final(out)@ == old(out)@ + id_bytes(ids@, ids@.len() as int),
{
    let ghost before = out@;
    let mut i: usize = 0;
    assert(out@ =~= before + id_bytes(ids@, 0));
    while i < ids.len()
        invariant
            i <= ids@.len(),
            out@ == before + id_bytes(ids@, i as int),
        decreases ids@.len() - i,
    {
        push_u32(out, ids[i].0);
        i = i + 1;
        assert(out@ =~= before + id_bytes(ids@, i as int));
    }
}

impl DrmResources {
    pub fn serialize(&self) -> (data: Vec<u8>)
        ensures
            data@ == resources_bytes(*self),
    {
        let mut data: Vec<u8> = Vec::new();
        push_u32(&mut data, self.crtcs.len() as u32);
        push_u32(&mut data, self.connectors.len() as u32);
        push_u32(&mut data, self.encoders.len() as u32);
        push_u32(&mut data, self.min_width);
        push_u32(&mut data, self.max_width);
        push_u32(&mut data, self.min_height);
        push_u32(&mut data, self.max_height);
        push_ids(&mut data, &self.crtcs);
        push_ids(&mut data, &self.connectors);
        push_ids(&mut data, &self.encoders);
        assert(data@ =~= resources_bytes(*self));
        data
    }
}

impl DrmModeInfo {
    pub fn serialize(&self) -> (data: Vec<u8>)
        ensures
            data@ == mode_bytes(*self),
    {
        let mut data: Vec<u8> = Vec::new();
        push_mode(&mut data, self);
        assert(data@ =~= mode_bytes(*self));
        data
    }
}

impl DrmCrtc {
    pub fn serialize(&self) -> (data: Vec<u8>)
        ensures
            data@ == crtc_bytes(*self),
    {
        let mut data: Vec<u8> = Vec::new();
        push_u32(&mut data, self.id.0);
        push_u32(&mut data, self.x as u32);
        push_u32(&mut data, self.y as u32);
        push_u32(&mut data, self.gamma_size);
        match &self.mode {
            Some(m) => {
                data.push(1);
                push_mode(&mut data, m);
            },
            None => data.push(0),
        }
        assert(data@ =~= crtc_bytes(*self));
        data
    }
}

impl DrmConnector {
    pub fn serialize(&self) -> (data: Vec<u8>)
        ensures
            data@ == connector_bytes(*self),
    {
        let mut data: Vec<u8> = Vec::new();
        push_u32(&mut data, self.id.0);
        push_u32(&mut data, self.connector_type.code());
        push_u32(&mut data, self.connector_type_id);
        push_u32(&mut data, self.status.code());
        push_u32(&mut data, self.modes.len() as u32);
        let ghost head = data@;
        let mut i: usize = 0;
        assert(data@ =~= head + modes_bytes(self.modes@, 0));
        while i < self.modes.len()
            invariant
                i <= self.modes@.len(),
                data@ == head + modes_bytes(self.modes@, i as int),
            decreases self.modes@.len() - i,
        {
            push_mode(&mut data, &self.modes[i]);
            i = i + 1;
            assert(data@ =~= head + modes_bytes(self.modes@, i as int));
        }
        assert(data@ =~= connector_bytes(*self));
        data
    }
}

/// A mode takes 68 bytes; its clock and its columns can be read back from their
/// places.
pub proof fn lemma_mode_columns_read_back(m: DrmModeInfo)
    ensures
        mode_bytes(m).len() == 68,
        u32_at(mode_bytes(m), 0) == m.clock,
        u16_at(mode_bytes(m), 4) == m.hdisplay,
        u16_at(mode_bytes(m), 6) == m.hsync_start,
        u16_at(mode_bytes(m), 8) == m.hsync_end,
        u16_at(mode_bytes(m), 10) == m.htotal,
        u16_at(mode_bytes(m), 12) == m.hskew,
{
}

/// A mode's rows can be read back from their places.
pub proof fn lemma_mode_rows_read_back(m: DrmModeInfo)
    ensures
        u16_at(mode_bytes(m), 14) == m.vdisplay,
        u16_at(mode_bytes(m), 16) == m.vsync_start,
        u16_at(mode_bytes(m), 18) == m.vsync_end,
        u16_at(mode_bytes(m), 20) == m.vtotal,
        u16_at(mode_bytes(m), 22) == m.vscan,
{
}

/// The end of some bytes is what was put there.
proof fn lemma_tail(a: Seq<u8>, b: Seq<u8>)
    ensures
        (a + b).skip(a.len() as int) == b,
{
    assert((a + b).skip(a.len() as int) =~= b);
}

/// Three numbers behind some bytes can be read back.
proof fn lemma_three(t: Seq<u8>, a: u32, b: u32, c: u32, rest: Seq<u8>)
    ensures
        u32_at(t + le32(a) + le32(b) + le32(c) + rest, t.len() as int) == a,
        u32_at(t + le32(a) + le32(b) + le32(c) + rest, (t.len() + 4) as int) == b,
        u32_at(t + le32(a) + le32(b) + le32(c) + rest, (t.len() + 8) as int) == c,
{
    let whole = t + le32(a) + le32(b) + le32(c) + rest;
    assert(whole =~= t + le32(a) + (le32(b) + le32(c) + rest));
    assert(whole =~= (t + le32(a)) + le32(b) + (le32(c) + rest));
    lemma_read_of_write32(a, t, le32(b) + le32(c) + rest);
    lemma_read_of_write32(b, t + le32(a), le32(c) + rest);
    lemma_read_of_write32(c, t + le32(a) + le32(b), rest);
}

/// A mode's refresh rate, flags and type can be read back from their places.
pub proof fn lemma_mode_rest_reads_back(m: DrmModeInfo)
    ensures
        u32_at(mode_bytes(m), 24) == m.vrefresh,
        u32_at(mode_bytes(m), 28) == m.flags,
        u32_at(mode_bytes(m), 32) == m.type_,
{
    lemma_three(mode_timing(m), m.vrefresh, m.flags, m.type_, m.name@);
}

/// A mode's name stands behind its numbers.
pub proof fn lemma_mode_name_reads_back(m: DrmModeInfo)
    ensures
        mode_bytes(m).skip(36) == m.name@,
{
    lemma_tail(mode_numbers(m), m.name@);
}

/// Command numbers.
pub const DRM_VERSION: u32 = 0x00;

pub const DRM_AUTH: u32 = 0x01;

pub const DRM_GET_MAGIC: u32 = 0x02;

pub const DRM_SET_MASTER: u32 = 0x1e;

pub const DRM_DROP_MASTER: u32 = 0x1f;

pub const DRM_MODE_GETRESOURCES: u32 = 0xa0;

pub const DRM_MODE_GETCRTC: u32 = 0xa1;

pub const DRM_MODE_SETCRTC: u32 = 0xa2;

pub const DRM_MODE_GETCONNECTOR: u32 = 0xa7;

pub const DRM_MODE_ADDFB: u32 = 0xae;

pub const DRM_MODE_ATOMIC: u32 = 0xbc;

/// The session that commands act for.
pub const COMMAND_SESSION: u32 = 1;

/// The driver: whether it has been started.
pub struct DrmDriver {
    pub initialized: bool,
}

/// What the driver says of itself.
pub open spec fn own_version() -> DrmVersion {
    DrmVersion {
        version_major: 1,
        version_minor: 6,
        version_patchlevel: 0,
        name: "leandros-drm",
        date: "20261201",
        desc: "LeandrOS DRM driver",
    }
}

/// The outcome of a command that changes nothing.
pub open spec fn answered(
    a: DrmContext,
    b: DrmContext,
    r: Result<Vec<u8>, DriverError>,
    bytes: Seq<u8>,
) -> bool {
    b == a && (r matches Ok(v) && v@ == bytes)
}

pub open spec fn refused(
    a: DrmContext,
    b: DrmContext,
    r: Result<Vec<u8>, DriverError>,
    e: DriverError,
) -> bool {
    b == a && r == Err::<Vec<u8>, DriverError>(e)
}

/// The outcome of a command, which makes the subsystem `a` into `b`.
pub open spec fn command_done(
    a: DrmContext,
    b: DrmContext,
    command: u32,
    d: Seq<u8>,
    r: Result<Vec<u8>, DriverError>,
) -> bool {
    let id = DrmObjectId(u32_at(d, 0));
    if command == DRM_VERSION {
        answered(a, b, r, version_bytes(own_version()))
    } else if command == DRM_GET_MAGIC {
        let token = DrmAuthToken {
            session_id: a.auth@.next_id,
            magic: a.magics.next,
            authenticated: false,
            capabilities: DrmCapabilities { bits: 0 },
        };
        &&& r matches Ok(v) && v@ == le32(token.magic)
        &&& b.auth@ == (Sessions {
            active: a.auth@.active.push(token),
            next_id: (a.auth@.next_id + 1) as u32,
            ..a.auth@
        })
        &&& b.magics.next == a.magics.next + 1
        &&& b == (DrmContext { auth: b.auth, magics: b.magics, ..a })
    } else if command == DRM_AUTH {
        if d.len() < 4 {
            refused(a, b, r, DriverError::Unsupported)
        } else {
            exists|o: Result<(), AuthError>| #[trigger]
                a.auth@.authenticated(b.auth@, COMMAND_SESSION, u32_at(d, 0), o) && b == (
                DrmContext { auth: b.auth, ..a }) && (r matches Ok(v) && v@ == seq![
                    if o is Ok {
                        1u8
                    } else {
                        0
                    },
                ])
        }
    } else if command == DRM_SET_MASTER {
        exists|o: Result<(), AuthError>| #[trigger]
            a.auth@.mastered(b.auth@, COMMAND_SESSION, o) && b == (DrmContext {
                auth: b.auth,
                ..a
            }) && done_if(o is Ok, r)
    } else if command == DRM_DROP_MASTER {
        &&& b.auth@ == (if a.auth@.master == Some(COMMAND_SESSION) {
            Sessions { master: None, ..a.auth@ }
        } else {
            a.auth@
        })
        &&& b == (DrmContext { auth: b.auth, ..a })
        &&& done_if(a.auth@.master == Some(COMMAND_SESSION), r)
    } else if command == DRM_MODE_GETRESOURCES {
        &&& b == a
        &&& r matches Ok(v) && v@ == le32(a.device.crtcs@.len() as u32) + le32(
            a.device.connectors@.len() as u32,
        ) + le32(a.device.encoders@.len() as u32) + le32(320) + le32(4096) + le32(200) + le32(4096)
            + id_bytes(ids_of(a.device.crtcs@), a.device.crtcs@.len() as int) + id_bytes(
            ids_of(a.device.connectors@),
            a.device.connectors@.len() as int,
        ) + id_bytes(ids_of(a.device.encoders@), a.device.encoders@.len() as int)
    } else if command == DRM_MODE_GETCRTC {
        if d.len() < 4 {
            refused(a, b, r, DriverError::Unsupported)
        } else if none_with(a.device.crtcs@, id) {
            refused(a, b, r, DriverError::NotFound)
        } else {
            exists|i: int| #[trigger]
                first_with(a.device.crtcs@, id, i) && answered(
                    a,
                    b,
                    r,
                    crtc_bytes(a.device.crtcs@[i]),
                )
        }
    } else if command == DRM_MODE_SETCRTC {
        if d.len() < 16 || !a.auth@.permits(COMMAND_SESSION, DrmOperation::ModeSet) {
            refused(a, b, r, DriverError::Unsupported)
        } else {
            exists|o: Result<(), DriverError>| #[trigger]
                crtc_set(a.device, b.device, id, None, u32_at(d, 4), u32_at(d, 8), None, o) && b
                    == (DrmContext { device: b.device, ..a }) && match o {
                    Ok(()) => r matches Ok(v) && v@ == seq![0u8],
                    Err(e) => r == Err::<Vec<u8>, DriverError>(e),
                }
        }
    } else if command == DRM_MODE_GETCONNECTOR {
        if d.len() < 4 {
            refused(a, b, r, DriverError::Unsupported)
        } else if none_with(a.device.connectors@, id) {
            refused(a, b, r, DriverError::NotFound)
        } else {
            exists|i: int| #[trigger]
                first_with(a.device.connectors@, id, i) && answered(
                    a,
                    b,
                    r,
                    connector_bytes(a.device.connectors@[i]),
                )
        }
    } else if command == DRM_MODE_ADDFB {
        let bpp = u32_at(d, 12);
        if d.len() < 20 || !a.auth@.permits(COMMAND_SESSION, DrmOperation::CreateFramebuffer) || (
        bpp != 32 && bpp != 16) {
            refused(a, b, r, DriverError::Unsupported)
        } else {
            fb_added(
                a,
                b,
                u32_at(d, 0),
                u32_at(d, 4),
                u32_at(d, 8),
                if bpp == 32 {
                    DrmFormat::Xrgb8888
                } else {
                    DrmFormat::Rgb565
                },
                u32_at(d, 16),
            ) && (r matches Ok(v) && v@ == le32(a.ids.next))
        }
    } else if command == DRM_MODE_ATOMIC {
        if !a.auth@.permits(COMMAND_SESSION, DrmOperation::AtomicCommit) {
            refused(a, b, r, DriverError::Unsupported)
        } else {
            exists|st: DrmAtomicState, o: CommitOutcome, n: int| #[trigger]
                committed(a.device, b.device, st, a.hw, o, n) && st.crtc_states@.len() == 0
                    && st.plane_states@.len() == 0 && b == (DrmContext { device: b.device, ..a })
                    && (r matches Ok(v) && v@ == seq![0u8])
        }
    } else {
        refused(a, b, r, DriverError::Unsupported)
    }
}

/// A zero for success, and otherwise that it is not supported.
pub open spec fn done_if(ok: bool, r: Result<Vec<u8>, DriverError>) -> bool {
    if ok {
        r matches Ok(v) && v@ == seq![0u8]
    } else {
        r == Err::<Vec<u8>, DriverError>(DriverError::Unsupported)
    }
}

/// A framebuffer was registered under the next id.
pub open spec fn fb_added(
    a: DrmContext,
    b: DrmContext,
    width: u32,
    height: u32,
    pitch: u32,
    format: DrmFormat,
    handle: u32,
) -> bool {
    let fb = b.device.framebuffers@[a.ids.next];
    &&& fb.id.0 == a.ids.next
    &&& fb.width == width
    &&& fb.height == height
    &&& fb.pitch == pitch
    &&& fb.format == format
    &&& fb.modifier == 0
    &&& fb.handles@ == seq![handle, 0u32, 0, 0]
    &&& fb.offsets@ == seq![0u32, 0, 0, 0]
    &&& fb.pitches@ == seq![pitch, 0u32, 0, 0]
    &&& fb.physical_addresses@ == seq![0u64, 0, 0, 0]
    &&& b.device.framebuffers@ == a.device.framebuffers@.insert(a.ids.next, fb)
    &&& b.device == (DrmDevice { framebuffers: b.device.framebuffers, ..a.device })
    &&& b.ids.next == a.ids.next + 1
    &&& b == (DrmContext { device: b.device, ids: b.ids, ..a })
}

fn one_byte(v: u8) -> (r: Vec<u8>)
    ensures
        r@ == seq![v],
{
    let r = vec![v];
    assert(r@ =~= seq![v]);
    r
}

fn number_bytes(v: u32) -> (r: Vec<u8>)
    ensures
        r@ == le32(v),
{
    let mut r: Vec<u8> = Vec::new();
    push_u32(&mut r, v);
    assert(r@ =~= le32(v));
    r
}

impl DrmDriver {
    /// A driver that has not been started.
    pub fn new() -> (d: DrmDriver)
        ensures
            !d.initialized,
    {
        DrmDriver { initialized: false }
    }

    /// Carries out a command.
    pub fn handle_drm_command(&self, drm: &mut DrmContext, command: u32, data: &[u8]) -> (r: Result<
        Vec<u8>,
        DriverError,
    >)
        requires
            old(drm).ids.next < u32::MAX,
            old(drm).auth@.next_id < u32::MAX,
            old(drm).magics.next < u32::MAX,
        ensures
            command_done(*old(drm), *final(drm), command, data@, r),
    {
        if command == DRM_VERSION {
            let version = DrmVersion {
                version_major: 1,
                version_minor: 6,
                version_patchlevel: 0,
                name: "leandros-drm",
                date: "20261201",
                desc: "LeandrOS DRM driver",
            };
            return Ok(version.serialize());
        }
        if command == DRM_GET_MAGIC {
            let token = create_session(&mut drm.auth, &mut drm.magics);
            return Ok(number_bytes(token.magic));
        }
        if command == DRM_AUTH {
            if data.len() < 4 {
                return Err(DriverError::Unsupported);
            }
            let magic = read_u32(data, 0);
            return match authenticate_session(&mut drm.auth, COMMAND_SESSION, magic) {
                Ok(()) => Ok(one_byte(1)),
                Err(_) => Ok(one_byte(0)),
            };
        }
        if command == DRM_SET_MASTER {
            return match set_master(&mut drm.auth, COMMAND_SESSION) {
                Ok(()) => Ok(one_byte(0)),
                Err(_) => Err(DriverError::Unsupported),
            };
        }
        if command == DRM_DROP_MASTER {
            return match drop_master(&mut drm.auth, COMMAND_SESSION) {
                Ok(()) => Ok(one_byte(0)),
                Err(_) => Err(DriverError::Unsupported),
            };
        }
        if command == DRM_MODE_GETRESOURCES {
            let resources = drm.device.get_resources();
            return Ok(resources.serialize());
        }
        if command == DRM_MODE_GETCRTC {
            if data.len() < 4 {
                return Err(DriverError::Unsupported);
            }
            let id = DrmObjectId(read_u32(data, 0));
            return match drm.device.get_crtc(id) {
                Some(crtc) => Ok(crtc.serialize()),
                None => Err(DriverError::NotFound),
            };
        }
        if command == DRM_MODE_SETCRTC {
            if data.len() < 16 || !can_perform(&drm.auth, COMMAND_SESSION, DrmOperation::ModeSet) {
                return Err(DriverError::Unsupported);
            }
            let id = DrmObjectId(read_u32(data, 0));
            let x = read_u32(data, 4);
            let y = read_u32(data, 8);
            let none: Vec<DrmObjectId> = Vec::new();
            return match drm.device.set_crtc(id, None, x, y, none.as_slice(), None) {
                Ok(()) => Ok(one_byte(0)),
                Err(e) => Err(e),
            };
        }
        if command == DRM_MODE_GETCONNECTOR {
            if data.len() < 4 {
                return Err(DriverError::Unsupported);
            }
            let id = DrmObjectId(read_u32(data, 0));
            return match drm.device.get_connector(id) {
                Some(connector) => Ok(connector.serialize()),
                None => Err(DriverError::NotFound),
            };
        }
        if command == DRM_MODE_ADDFB {
            if data.len() < 20 || !can_perform(
                &drm.auth,
                COMMAND_SESSION,
                DrmOperation::CreateFramebuffer,
            ) {
                return Err(DriverError::Unsupported);
            }
            let width = read_u32(data, 0);
            let height = read_u32(data, 4);
            let pitch = read_u32(data, 8);
            let bpp = read_u32(data, 12);
            let handle = read_u32(data, 16);
            let format = if bpp == 32 {
                DrmFormat::Xrgb8888
            } else if bpp == 16 {
                DrmFormat::Rgb565
            } else {
                return Err(DriverError::Unsupported);
            };
            let fb = DrmFramebuffer::new(width, height, format, handle, pitch, &mut drm.ids);
            let id = drm.device.add_framebuffer(fb);
            return Ok(number_bytes(id.raw()));
        }
        if command == DRM_MODE_ATOMIC {
            if !can_perform(&drm.auth, COMMAND_SESSION, DrmOperation::AtomicCommit) {
                return Err(DriverError::Unsupported);
            }
            let state = DrmAtomicState::new();
            let hw = drm.hw;
            let out = drm.device.atomic_commit(&state, 0, hw);
            return match out.result {
                Ok(()) => Ok(one_byte(0)),
                Err(e) => Err(e),
            };
        }
        Err(DriverError::Unsupported)
    }
}

/// The device was set up afresh.
pub open spec fn device_started(a: DrmContext, b: DrmContext) -> bool {
    &&& is_set_up(b.device, a.ids.next as int, a.display_found)
    &&& b.ids.next == a.ids.next + 5
    &&& b == (DrmContext { device: b.device, ids: b.ids, ..a })
}

impl DrmDriver {
    /// Sets the device up.
    pub fn probe(&mut self, drm: &mut DrmContext) -> (r: Result<(), DriverError>)
        requires
            old(drm).ids.next + 5 <= u32::MAX,
        ensures
            r is Ok,
            final(self).initialized,
            device_started(*old(drm), *final(drm)),
    {
        drm.device = init_drm(&mut drm.ids, drm.display_found);
        self.initialized = true;
        Ok(())
    }

    /// Answers a message: its tag is the command, its bytes are the arguments.
    /// A failure is answered with the largest tag, and a driver that has not
    /// been started says nothing.
    pub fn handle(&mut self, drm: &mut DrmContext, msg: &Message) -> (reply: Message)
        requires
            old(drm).ids.next < u32::MAX,
            old(drm).auth@.next_id < u32::MAX,
            old(drm).magics.next < u32::MAX,
        ensures
            *final(self) == *old(self),
            if !old(self).initialized {
                *final(drm) == *old(drm) && reply.tag == 0 && reply.data@ == padded(Seq::empty())
            } else {
                exists|r: Result<Vec<u8>, DriverError>| #[trigger]
                    command_done(*old(drm), *final(drm), msg.tag as u32, msg.data@, r) && match r {
                        Ok(v) => reply.tag == 0 && reply.data@ == padded(v@),
                        Err(_) => reply.tag == u64::MAX && reply.data@ == padded(Seq::empty()),
                    }
            },
    {
        if !self.initialized {
            return Message::empty();
        }
        let command = msg.tag as u32;
        match self.handle_drm_command(drm, command, &msg.data) {
            Ok(bytes) => Message::holding(0, &bytes),
            Err(_) => {
                let mut reply = Message::empty();
                reply.tag = u64::MAX;
                reply
            },
        }
    }
}

/// Starts the driver.
pub fn init_drm_driver(driver: &mut DrmDriver, drm: &mut DrmContext) -> (r: Result<(), DriverError>)
    requires
        old(drm).ids.next + 5 <= u32::MAX,
    ensures
        r is Ok,
        final(driver).initialized,
        device_started(*old(drm), *final(drm)),
{
    driver.probe(drm)
}

} // verus!
