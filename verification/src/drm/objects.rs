//! Display objects and how they refer to each other.
use crate::text::{name_field, put_chars};
use crate::DriverError;
use vstd::prelude::*;

verus! {

/// A source of numbers that are never handed out twice.
#[derive(Debug, Clone, Copy, PartialEq, Eq, Structural)]
pub struct IdCounter {
    /// The next number.
    pub next: u32,
}

impl IdCounter {
    /// Counts from 1.
    pub fn new() -> (c: Self)
        ensures
            c.next == 1,
    {
        IdCounter { next: 1 }
    }

    /// The next number.
    pub fn take(&mut self) -> (n: u32)
        requires
            old(self).next < u32::MAX,
        ensures
            n == old(self).next,
            final(self).next == old(self).next + 1,
    {
        let n = self.next;
        self.next = self.next + 1;
        n
    }
}

/// What a display object is.
#[derive(Debug, Clone, Copy, PartialEq, Eq, Structural)]
pub enum DrmObjectType {
    Crtc,
    Connector,
    Encoder,
    Mode,
    Property,
    Plane,
    Blob,
}

impl DrmObjectType {
    /// The type's code in requests.
    pub fn code(self) -> (r: u32)
        ensures
            r == (match self {
                DrmObjectType::Crtc => 0xcccc_ccccu32,
                DrmObjectType::Connector => 0xc0c0_c0c0,
                DrmObjectType::Encoder => 0xe0e0_e0e0,
                DrmObjectType::Mode => 0xdede_dede,
                DrmObjectType::Property => 0xb0b0_b0b0,
                DrmObjectType::Plane => 0xeeee_eeee,
                DrmObjectType::Blob => 0xbbbb_bbbb,
            }),
    {
        match self {
            DrmObjectType::Crtc => 0xcccc_cccc,
            DrmObjectType::Connector => 0xc0c0_c0c0,
            DrmObjectType::Encoder => 0xe0e0_e0e0,
            DrmObjectType::Mode => 0xdede_dede,
            DrmObjectType::Property => 0xb0b0_b0b0,
            DrmObjectType::Plane => 0xeeee_eeee,
            DrmObjectType::Blob => 0xbbbb_bbbb,
        }
    }
}

/// The id of a display object.
#[derive(Debug, Clone, Copy, PartialEq, Eq, Hash, PartialOrd, Ord, Structural)]
pub struct DrmObjectId(pub u32);

impl DrmObjectId {
    /// An id that no object has.
    pub fn new(ids: &mut IdCounter) -> (r: Self)
        requires
            old(ids).next < u32::MAX,
        ensures
            r.0 == old(ids).next,
            final(ids).next == old(ids).next + 1,
    {
        DrmObjectId(ids.take())
    }

    /// The number itself.
    pub fn raw(self) -> (r: u32)
        ensures
            r == self.0,
    {
        self.0
    }
}

/// A display object.
pub trait DrmObject {
    /// The object's id.
    spec fn obj_id(&self) -> DrmObjectId;

    /// What the object is.
    spec fn obj_type(&self) -> DrmObjectType;

    /// The object's id.
    fn id(&self) -> (r: DrmObjectId)
        ensures
            r == self.obj_id(),
    ;

    /// What the object is.
    fn object_type(&self) -> (r: DrmObjectType)
        ensures
            r == self.obj_type(),
    ;
}

/// A display mode and its timing.
#[derive(Debug, Clone, Copy)]
pub struct DrmModeInfo {
    /// Pixel clock in kHz.
    pub clock: u32,
    pub hdisplay: u16,
    pub hsync_start: u16,
    pub hsync_end: u16,
    pub htotal: u16,
    pub hskew: u16,
    pub vdisplay: u16,
    pub vsync_start: u16,
    pub vsync_end: u16,
    pub vtotal: u16,
    pub vscan: u16,
    /// Refresh rate in Hz.
    pub vrefresh: u32,
    pub flags: u32,
    pub type_: u32,
    pub name: [u8; 32],
}

/// A width as it stands in a mode's name.
pub open spec fn width_name(width: u16) -> Seq<char> {
    if width == 640 {
        "640"@
    } else if width == 800 {
        "800"@
    } else if width == 1024 {
        "1024"@
    } else if width == 1280 {
        "1280"@
    } else if width == 1366 {
        "1366"@
    } else if width == 1920 {
        "1920"@
    } else if width == 3840 {
        "3840"@
    } else {
        "unknown"@
    }
}

/// A height as it stands in a mode's name.
pub open spec fn height_name(height: u16) -> Seq<char> {
    if height == 480 {
        "480"@
    } else if height == 600 {
        "600"@
    } else if height == 768 {
        "768"@
    } else if height == 1024 {
        "1024"@
    } else if height == 1080 {
        "1080"@
    } else if height == 1200 {
        "1200"@
    } else if height == 2160 {
        "2160"@
    } else {
        "unknown"@
    }
}

/// Pixels in a line, blanking included: an eighth more than are shown.
pub open spec fn line_total(width: int) -> int {
    width + width / 8
}

/// Lines in a frame, blanking included: a twentieth more than are shown.
pub open spec fn frame_total(height: int) -> int {
    height + height / 20
}

/// The timing of the mode fits its fields.
pub open spec fn timing_fits(width: int, height: int, refresh: int) -> bool {
    &&& line_total(width) <= u16::MAX
    &&& width + 1 <= u16::MAX
    &&& frame_total(height) <= u16::MAX
    &&& height + 3 <= u16::MAX
    &&& line_total(width) * frame_total(height) * refresh + 500 <= u32::MAX
}

/// Every mode up to 4096 each way and 200 Hz has a timing that fits.
pub proof fn lemma_timing_fits(width: int, height: int, refresh: int)
    requires
        0 <= width <= 4096,
        0 <= height <= 4096,
        0 <= refresh <= 200,
    ensures
        timing_fits(width, height, refresh),
{
    let l = line_total(width);
    let f = frame_total(height);
    assert(0 <= l <= 4608 && 0 <= f <= 4300);
    assert(0 <= l * f <= 4608 * 4300) by (nonlinear_arith)
        requires
            0 <= l <= 4608,
            0 <= f <= 4300,
    ;
    let p = l * f;
    assert(p * refresh <= 4608 * 4300 * 200) by (nonlinear_arith)
        requires
            0 <= p <= 4608 * 4300,
            0 <= refresh <= 200,
    ;
}

impl DrmModeInfo {
    /// This is the mode of the given size and refresh rate.
    pub open spec fn is_mode(&self, width: u16, height: u16, refresh: u32) -> bool {
        &&& self.clock == (line_total(width as int) * frame_total(height as int) * refresh + 500)
            / 1000
        &&& self.hdisplay == width
        &&& self.hsync_start == width + 1
        &&& self.hsync_end == width + width / 32
        &&& self.htotal == line_total(width as int)
        &&& self.hskew == 0
        &&& self.vdisplay == height
        &&& self.vsync_start == height + 1
        &&& self.vsync_end == height + 3
        &&& self.vtotal == frame_total(height as int)
        &&& self.vscan == 0
        &&& self.vrefresh == refresh
        &&& self.flags == 0
        &&& self.type_ == 0x40
        &&& self.name@ == name_field(width_name(width) + seq!['x'] + height_name(height))
    }

    /// The mode of the given size and refresh rate.
    pub fn new(width: u16, height: u16, refresh: u32) -> (m: Self)
        requires
            timing_fits(width as int, height as int, refresh as int),
        ensures
            m.is_mode(width, height, refresh),
    {
        let htotal: u16 = width + width / 8;
        let vtotal: u16 = height + height / 20;
        proof {
            assert(0 <= htotal * vtotal <= 65535 * 65535) by (nonlinear_arith)
                requires
                    0 <= htotal <= 65535,
                    0 <= vtotal <= 65535,
            ;
            assert(0 <= htotal * vtotal * refresh) by (nonlinear_arith)
                requires
                    0 <= htotal * vtotal,
                    0 <= refresh,
            ;
        }
        let clock: u32 = (htotal as u32 * vtotal as u32 * refresh + 500) / 1000;
        let width_str = match width {
            640 => "640",
            800 => "800",
            1024 => "1024",
            1280 => "1280",
            1366 => "1366",
            1920 => "1920",
            3840 => "3840",
            _ => "unknown",
        };
        let height_str = match height {
            480 => "480",
            600 => "600",
            768 => "768",
            1024 => "1024",
            1080 => "1080",
            1200 => "1200",
            2160 => "2160",
            _ => "unknown",
        };
        proof {
            reveal_strlit("640");
            reveal_strlit("800");
            reveal_strlit("1024");
            reveal_strlit("1280");
            reveal_strlit("1366");
            reveal_strlit("1920");
            reveal_strlit("3840");
            reveal_strlit("480");
            reveal_strlit("600");
            reveal_strlit("768");
            reveal_strlit("1080");
            reveal_strlit("1200");
            reveal_strlit("2160");
            reveal_strlit("unknown");
            reveal_strlit("x");
        }
        let mut name = [0u8; 32];
        let at_x = put_chars(&mut name, 0, width_str);
        let at_height = put_chars(&mut name, at_x, "x");
        let _ = put_chars(&mut name, at_height, height_str);
        assert(name@ =~= name_field(width_name(width) + seq!['x'] + height_name(height)));
        DrmModeInfo {
            clock,
            hdisplay: width,
            hsync_start: width + 1,
            hsync_end: width + width / 32,
            htotal,
            hskew: 0,
            vdisplay: height,
            vsync_start: height + 1,
            vsync_end: height + 3,
            vtotal,
            vscan: 0,
            vrefresh: refresh,
            flags: 0,
            type_: 0x40,
            name,
        }
    }
}

/// A crtc: it scans pixels out at the timing of a mode.
pub struct DrmCrtc {
    pub id: DrmObjectId,
    pub x: i32,
    pub y: i32,
    pub gamma_size: u32,
    pub possible_crtcs: u32,
    pub mode: Option<DrmModeInfo>,
    pub enabled: bool,
}

impl DrmCrtc {
    /// A crtc that is off.
    pub fn new(ids: &mut IdCounter) -> (c: Self)
        requires
            old(ids).next < u32::MAX,
        ensures
            c.obj_id().0 == old(ids).next,
            final(ids).next == old(ids).next + 1,
            c.x == 0 && c.y == 0 && c.gamma_size == 256 && c.possible_crtcs == 1 && c.mode is None
                && !c.enabled,
    {
        DrmCrtc {
            id: DrmObjectId::new(ids),
            x: 0,
            y: 0,
            gamma_size: 256,
            possible_crtcs: 1,
            mode: None,
            enabled: false,
        }
    }

    /// Sets a mode and switches the crtc on.
    pub fn set_mode(&mut self, mode: DrmModeInfo) -> (r: Result<(), DriverError>)
        ensures
            r is Ok,
            *final(self) == (DrmCrtc { mode: Some(mode), enabled: true, ..*old(self) }),
    {
        self.mode = Some(mode);
        self.enabled = true;
        Ok(())
    }

    /// Switches the crtc off.
    pub fn disable(&mut self)
        ensures
            *final(self) == (DrmCrtc { mode: None, enabled: false, ..*old(self) }),
    {
        self.enabled = false;
        self.mode = None;
    }
}

impl DrmObject for DrmCrtc {
    open spec fn obj_id(&self) -> DrmObjectId {
        self.id
    }

    open spec fn obj_type(&self) -> DrmObjectType {
        DrmObjectType::Crtc
    }

    fn id(&self) -> (r: DrmObjectId) {
        self.id
    }

    fn object_type(&self) -> (r: DrmObjectType) {
        DrmObjectType::Crtc
    }
}

/// Kinds of connector.
#[derive(Debug, Clone, Copy, PartialEq, Eq, Structural)]
pub enum DrmConnectorType {
    Unknown,
    Vga,
    DviI,
    DviD,
    DviA,
    Composite,
    Svideo,
    Lvds,
    Component,
    Din9,
    DisplayPort,
    Hdmi,
    HdmiB,
    Tv,
    Edp,
    Virtual,
    Dsi,
}

impl DrmConnectorType {
    /// The kind's code in replies.
    pub open spec fn number(self) -> u32 {
        match self {
            DrmConnectorType::Unknown => 0u32,
            DrmConnectorType::Vga => 1,
            DrmConnectorType::DviI => 2,
            DrmConnectorType::DviD => 3,
            DrmConnectorType::DviA => 4,
            DrmConnectorType::Composite => 5,
            DrmConnectorType::Svideo => 6,
            DrmConnectorType::Lvds => 7,
            DrmConnectorType::Component => 8,
            DrmConnectorType::Din9 => 9,
            DrmConnectorType::DisplayPort => 10,
            DrmConnectorType::Hdmi => 11,
            DrmConnectorType::HdmiB => 12,
            DrmConnectorType::Tv => 13,
            DrmConnectorType::Edp => 14,
            DrmConnectorType::Virtual => 15,
            DrmConnectorType::Dsi => 16,
        }
    }

    /// The kind's code in replies.
    pub fn code(self) -> (r: u32)
        ensures
            r == self.number(),
    {
        match self {
            DrmConnectorType::Unknown => 0,
            DrmConnectorType::Vga => 1,
            DrmConnectorType::DviI => 2,
            DrmConnectorType::DviD => 3,
            DrmConnectorType::DviA => 4,
            DrmConnectorType::Composite => 5,
            DrmConnectorType::Svideo => 6,
            DrmConnectorType::Lvds => 7,
            DrmConnectorType::Component => 8,
            DrmConnectorType::Din9 => 9,
            DrmConnectorType::DisplayPort => 10,
            DrmConnectorType::Hdmi => 11,
            DrmConnectorType::HdmiB => 12,
            DrmConnectorType::Tv => 13,
            DrmConnectorType::Edp => 14,
            DrmConnectorType::Virtual => 15,
            DrmConnectorType::Dsi => 16,
        }
    }
}

/// Whether something is plugged in.
#[derive(Debug, Clone, Copy, PartialEq, Eq, Structural)]
pub enum DrmConnectorStatus {
    Connected,
    Disconnected,
    Unknown,
}

impl DrmConnectorStatus {
    /// The status' code in replies.
    pub open spec fn number(self) -> u32 {
        match self {
            DrmConnectorStatus::Connected => 1u32,
            DrmConnectorStatus::Disconnected => 2,
            DrmConnectorStatus::Unknown => 3,
        }
    }

    /// The status' code in replies.
    pub fn code(self) -> (r: u32)
        ensures
            r == self.number(),
    {
        match self {
            DrmConnectorStatus::Connected => 1,
            DrmConnectorStatus::Disconnected => 2,
            DrmConnectorStatus::Unknown => 3,
        }
    }
}

/// A connector: a physical output.
pub struct DrmConnector {
    pub id: DrmObjectId,
    pub connector_type: DrmConnectorType,
    pub connector_type_id: u32,
    pub status: DrmConnectorStatus,
    pub modes: Vec<DrmModeInfo>,
    pub possible_crtcs: u32,
    pub dpms: u32,
}

impl DrmConnector {
    /// A connector without modes.
    pub fn new(connector_type: DrmConnectorType, ids: &mut IdCounter) -> (c: Self)
        requires
            old(ids).next < u32::MAX,
        ensures
            c.obj_id().0 == old(ids).next,
            final(ids).next == old(ids).next + 1,
            c.connector_type == connector_type,
            c.connector_type_id == 1,
            c.status is Unknown,
            c.modes@ == Seq::<DrmModeInfo>::empty(),
            c.possible_crtcs == 1,
            c.dpms == 0,
    {
        DrmConnector {
            id: DrmObjectId::new(ids),
            connector_type,
            connector_type_id: 1,
            status: DrmConnectorStatus::Unknown,
            modes: Vec::new(),
            possible_crtcs: 1,
            dpms: 0,
        }
    }

    /// Adds a mode at the end of the list.
    pub fn add_mode(&mut self, mode: DrmModeInfo)
        ensures
            final(self).modes@ == old(self).modes@.push(mode),
            *final(self) == (DrmConnector { modes: final(self).modes, ..*old(self) }),
    {
        self.modes.push(mode);
    }

    /// Sets the status.
    pub fn set_status(&mut self, status: DrmConnectorStatus)
        ensures
            *final(self) == (DrmConnector { status, ..*old(self) }),
    {
        self.status = status;
    }

    /// Looks whether something is plugged in; a virtual display always is.
    pub fn detect(&mut self) -> (r: DrmConnectorStatus)
        ensures
            r is Connected,
            *final(self) == (DrmConnector { status: r, ..*old(self) }),
    {
        self.status = DrmConnectorStatus::Connected;
        self.status
    }
}

impl DrmObject for DrmConnector {
    open spec fn obj_id(&self) -> DrmObjectId {
        self.id
    }

    open spec fn obj_type(&self) -> DrmObjectType {
        DrmObjectType::Connector
    }

    fn id(&self) -> (r: DrmObjectId) {
        self.id
    }

    fn object_type(&self) -> (r: DrmObjectType) {
        DrmObjectType::Connector
    }
}

/// An encoder: it feeds a connector from a crtc.
pub struct DrmEncoder {
    pub id: DrmObjectId,
    pub encoder_type: u32,
    pub crtc_id: Option<DrmObjectId>,
    pub possible_crtcs: u32,
    pub possible_clones: u32,
}

impl DrmEncoder {
    /// An encoder that no crtc feeds.
    pub fn new(encoder_type: u32, ids: &mut IdCounter) -> (e: Self)
        requires
            old(ids).next < u32::MAX,
        ensures
            e.obj_id().0 == old(ids).next,
            final(ids).next == old(ids).next + 1,
            e.encoder_type == encoder_type,
            e.crtc_id is None,
            e.possible_crtcs == 1,
            e.possible_clones == 0,
    {
        DrmEncoder {
            id: DrmObjectId::new(ids),
            encoder_type,
            crtc_id: None,
            possible_crtcs: 1,
            possible_clones: 0,
        }
    }

    /// Lets a crtc feed the encoder.
    pub fn set_crtc(&mut self, crtc_id: DrmObjectId)
        ensures
            *final(self) == (DrmEncoder { crtc_id: Some(crtc_id), ..*old(self) }),
    {
        self.crtc_id = Some(crtc_id);
    }
}

impl DrmObject for DrmEncoder {
    open spec fn obj_id(&self) -> DrmObjectId {
        self.id
    }

    open spec fn obj_type(&self) -> DrmObjectType {
        DrmObjectType::Encoder
    }

    fn id(&self) -> (r: DrmObjectId) {
        self.id
    }

    fn object_type(&self) -> (r: DrmObjectType) {
        DrmObjectType::Encoder
    }
}

/// A plane: a layer of the picture, scaled from a framebuffer.
pub struct DrmPlane {
    pub id: DrmObjectId,
    pub plane_type: u32,
    pub possible_crtcs: u32,
    pub formats: Vec<u32>,
    pub crtc_id: Option<DrmObjectId>,
    pub fb_id: Option<DrmObjectId>,
    /// Where the layer goes on the crtc.
    pub crtc_x: i32,
    pub crtc_y: i32,
    pub crtc_w: u32,
    pub crtc_h: u32,
    /// What part of the framebuffer it shows, in 16.16 fixed point.
    pub src_x: u32,
    pub src_y: u32,
    pub src_w: u32,
    pub src_h: u32,
    pub scaling_supported: bool,
    /// How many times larger the layer can be than its source.
    pub max_upscale: u32,
    /// How many times smaller the layer can be than its source.
    pub max_downscale: u32,
}

/// `a` divided by `b`, rounded up.
pub open spec fn div_up(a: int, b: int) -> int {
    (a + b - 1) / b
}

/// How many times larger `crtc` pixels are than a source of `src` (16.16),
/// rounded up; 1 for an empty source.
pub open spec fn upscale(src: u32, crtc: u32) -> int {
    if src > 0 {
        div_up(crtc as int, (src / 65536) as int)
    } else {
        1
    }
}

/// How many times smaller `crtc` pixels are than a source of `src` (16.16),
/// rounded up; 1 for an empty target.
pub open spec fn downscale(src: u32, crtc: u32) -> int {
    if crtc > 0 {
        div_up((src / 65536) as int, crtc as int)
    } else {
        1
    }
}

/// The scale factors can be computed: a source is empty or at least a pixel,
/// and the sums fit.
pub open spec fn scale_defined(src: u32, crtc: u32) -> bool {
    &&& src == 0 || src >= 65536
    &&& crtc + src / 65536 <= u32::MAX
}

impl DrmPlane {
    /// A plane that shows nothing.
    pub fn new(plane_type: u32, ids: &mut IdCounter) -> (p: Self)
        requires
            old(ids).next < u32::MAX,
        ensures
            p.id.0 == old(ids).next,
            final(ids).next == old(ids).next + 1,
            p.plane_type == plane_type,
            p.possible_crtcs == 1,
            p.formats@ == seq![0x3432_5258u32, 0x3432_4752],
            p.crtc_id is None && p.fb_id is None,
            p.crtc_x == 0 && p.crtc_y == 0 && p.crtc_w == 0 && p.crtc_h == 0,
            p.src_x == 0 && p.src_y == 0 && p.src_w == 0 && p.src_h == 0,
            p.scaling_supported,
            p.max_upscale == 8,
            p.max_downscale == 4,
    {
        let mut formats: Vec<u32> = Vec::new();
        formats.push(0x3432_5258);
        formats.push(0x3432_4752);
        assert(formats@ =~= seq![0x3432_5258u32, 0x3432_4752]);
        DrmPlane {
            id: DrmObjectId::new(ids),
            plane_type,
            possible_crtcs: 1,
            formats,
            crtc_id: None,
            fb_id: None,
            crtc_x: 0,
            crtc_y: 0,
            crtc_w: 0,
            crtc_h: 0,
            src_x: 0,
            src_y: 0,
            src_w: 0,
            src_h: 0,
            scaling_supported: true,
            max_upscale: 8,
            max_downscale: 4,
        }
    }

    /// Places the plane. Refused if the plane cannot scale at all, or not by as
    /// much as this takes; a refused placement changes nothing.
    pub fn set_scaling(
        &mut self,
        src_x: u32,
        src_y: u32,
        src_w: u32,
        src_h: u32,
        crtc_x: i32,
        crtc_y: i32,
        crtc_w: u32,
        crtc_h: u32,
    ) -> (r: Result<(), DriverError>)
        requires
            scale_defined(src_w, crtc_w),
            scale_defined(src_h, crtc_h),
        ensures
            r == (if !old(self).scaling_supported {
                Err(DriverError::Unsupported)
            } else if upscale(src_w, crtc_w) <= old(self).max_upscale && upscale(src_h, crtc_h)
                <= old(self).max_upscale && downscale(src_w, crtc_w) <= old(self).max_downscale
                && downscale(src_h, crtc_h) <= old(self).max_downscale {
                Ok(())
            } else {
                Err(DriverError::InvalidParameter)
            }),
            *final(self) == (if r is Ok {
                DrmPlane {
                    src_x,
                    src_y,
                    src_w,
                    src_h,
                    crtc_x,
                    crtc_y,
                    crtc_w,
                    crtc_h,
                    ..*old(self)
                }
            } else {
                *old(self)
            }),
    {
        if !self.scaling_supported {
            return Err(DriverError::Unsupported);
        }
        let src_px: u32 = src_w / 65536;
        let src_ln: u32 = src_h / 65536;
        let upscale_x: u32 = if src_w > 0 {
            (crtc_w + (src_px - 1)) / src_px
        } else {
            1
        };
        let upscale_y: u32 = if src_h > 0 {
            (crtc_h + (src_ln - 1)) / src_ln
        } else {
            1
        };
        let downscale_x: u32 = if crtc_w > 0 {
            (src_px + (crtc_w - 1)) / crtc_w
        } else {
            1
        };
        let downscale_y: u32 = if crtc_h > 0 {
            (src_ln + (crtc_h - 1)) / crtc_h
        } else {
            1
        };
        if upscale_x > self.max_upscale || upscale_y > self.max_upscale {
            return Err(DriverError::InvalidParameter);
        }
        if downscale_x > self.max_downscale || downscale_y > self.max_downscale {
            return Err(DriverError::InvalidParameter);
        }
        self.src_x = src_x;
        self.src_y = src_y;
        self.src_w = src_w;
        self.src_h = src_h;
        self.crtc_x = crtc_x;
        self.crtc_y = crtc_y;
        self.crtc_w = crtc_w;
        self.crtc_h = crtc_h;
        Ok(())
    }
}

impl DrmObject for DrmPlane {
    open spec fn obj_id(&self) -> DrmObjectId {
        self.id
    }

    open spec fn obj_type(&self) -> DrmObjectType {
        DrmObjectType::Plane
    }

    fn id(&self) -> (r: DrmObjectId) {
        self.id
    }

    fn object_type(&self) -> (r: DrmObjectType) {
        DrmObjectType::Plane
    }
}

/// What a plane is to become.
#[derive(Debug, Clone, Copy, PartialEq, Eq, Structural)]
pub struct DrmPlaneState {
    pub plane_id: DrmObjectId,
    pub crtc_id: Option<DrmObjectId>,
    pub fb_id: Option<DrmObjectId>,
    pub crtc_x: i32,
    pub crtc_y: i32,
    pub crtc_w: u32,
    pub crtc_h: u32,
    pub src_x: u32,
    pub src_y: u32,
    pub src_w: u32,
    pub src_h: u32,
}

/// What the display pipeline is to become.
pub struct DrmAtomicState {
    /// Per crtc: its mode, and whether it is on.
    pub crtc_states: Vec<(DrmObjectId, DrmModeInfo, bool)>,
    /// Per connector: the crtc behind it.
    pub connector_states: Vec<(DrmObjectId, Option<DrmObjectId>)>,
    pub plane_states: Vec<DrmPlaneState>,
}

impl DrmAtomicState {
    /// Nothing changes.
    pub fn new() -> (s: Self)
        ensures
            s.crtc_states@ == Seq::<(DrmObjectId, DrmModeInfo, bool)>::empty(),
            s.connector_states@ == Seq::<(DrmObjectId, Option<DrmObjectId>)>::empty(),
            s.plane_states@ == Seq::<DrmPlaneState>::empty(),
    {
        DrmAtomicState {
            crtc_states: Vec::new(),
            connector_states: Vec::new(),
            plane_states: Vec::new(),
        }
    }

    /// Adds what a crtc is to become.
    pub fn add_crtc(&mut self, crtc_id: DrmObjectId, mode: DrmModeInfo, enabled: bool)
        ensures
            final(self).crtc_states@ == old(self).crtc_states@.push((crtc_id, mode, enabled)),
            final(self).connector_states == old(self).connector_states,
            final(self).plane_states == old(self).plane_states,
    {
        self.crtc_states.push((crtc_id, mode, enabled));
    }

    /// Adds what a connector is to become.
    pub fn add_connector(&mut self, connector_id: DrmObjectId, crtc_id: Option<DrmObjectId>)
        ensures
            final(self).connector_states@ == old(self).connector_states@.push(
                (connector_id, crtc_id),
            ),
            final(self).crtc_states == old(self).crtc_states,
            final(self).plane_states == old(self).plane_states,
    {
        self.connector_states.push((connector_id, crtc_id));
    }

    /// Adds what a plane is to become.
    pub fn add_plane(&mut self, state: DrmPlaneState)
        ensures
            final(self).plane_states@ == old(self).plane_states@.push(state),
            final(self).crtc_states == old(self).crtc_states,
            final(self).connector_states == old(self).connector_states,
    {
        self.plane_states.push(state);
    }
}

} // verus!
