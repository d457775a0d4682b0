//! Framebuffer objects and the buffers behind them.
use crate::bo::wrap_next;
use crate::drm::objects::{DrmObject, DrmObjectId, DrmObjectType, IdCounter};
use crate::DriverError;
use vstd::prelude::*;

verus! {

/// Pixel formats.
#[derive(Debug, Clone, Copy, PartialEq, Eq, Structural)]
pub enum DrmFormat {
    /// 32 bits: 0xRRGGBB.
    Xrgb8888,
    /// 32 bits: 0xBBGGRR.
    Bgrx8888,
    /// 32 bits with alpha.
    Argb8888,
    /// 24 bits.
    Rgb888,
    /// 16 bits.
    Rgb565,
}

impl DrmFormat {
    /// The format's code in requests.
    pub fn code(self) -> (r: u32)
        ensures
            r == (match self {
                DrmFormat::Xrgb8888 => 0x3432_5258u32,
                DrmFormat::Bgrx8888 => 0x3432_5242,
                DrmFormat::Argb8888 => 0x3432_4752,
                DrmFormat::Rgb888 => 0x3432_4247,
                DrmFormat::Rgb565 => 0x3631_4752,
            }),
    {
        match self {
            DrmFormat::Xrgb8888 => 0x3432_5258,
            DrmFormat::Bgrx8888 => 0x3432_5242,
            DrmFormat::Argb8888 => 0x3432_4752,
            DrmFormat::Rgb888 => 0x3432_4247,
            DrmFormat::Rgb565 => 0x3631_4752,
        }
    }

    /// Bytes of a pixel.
    pub fn bytes_per_pixel(self) -> (r: u32)
        ensures
            r == (if self is Rgb888 {
                3u32
            } else if self is Rgb565 {
                2
            } else {
                4
            }),
    {
        match self {
            DrmFormat::Xrgb8888 | DrmFormat::Bgrx8888 | DrmFormat::Argb8888 => 4,
            DrmFormat::Rgb888 => 3,
            DrmFormat::Rgb565 => 2,
        }
    }

    /// Whether pixels have an alpha value.
    pub fn has_alpha(self) -> (r: bool)
        ensures
            r == self is Argb8888,
    {
        match self {
            DrmFormat::Argb8888 => true,
            _ => false,
        }
    }
}

/// A framebuffer: an image that a plane can show.
#[derive(Debug, Clone, Copy)]
pub struct DrmFramebuffer {
    pub id: DrmObjectId,
    pub width: u32,
    pub height: u32,
    /// Bytes per row.
    pub pitch: u32,
    pub format: DrmFormat,
    /// How the pixels are laid out; 0 is row by row.
    pub modifier: u64,
    /// Per plane: the buffer handle, byte offset, pitch and physical address.
    pub handles: [u32; 4],
    pub offsets: [u32; 4],
    pub pitches: [u32; 4],
    pub physical_addresses: [u64; 4],
}

impl DrmFramebuffer {
    /// A framebuffer with a single plane.
    pub fn new(
        width: u32,
        height: u32,
        format: DrmFormat,
        handle: u32,
        pitch: u32,
        ids: &mut IdCounter,
    ) -> (f: Self)
        requires
            old(ids).next < u32::MAX,
        ensures
            f.id.0 == old(ids).next,
            final(ids).next == old(ids).next + 1,
            f.width == width && f.height == height && f.pitch == pitch && f.format == format
                && f.modifier == 0,
            f.handles@ == seq![handle, 0u32, 0, 0],
            f.offsets@ == seq![0u32, 0, 0, 0],
            f.pitches@ == seq![pitch, 0u32, 0, 0],
            f.physical_addresses@ == seq![0u64, 0, 0, 0],
    {
        let handles = [handle, 0, 0, 0];
        let offsets = [0u32, 0, 0, 0];
        let pitches = [pitch, 0, 0, 0];
        let physical_addresses = [0u64, 0, 0, 0];
        proof {
            assert(handles@ =~= seq![handle, 0u32, 0, 0]);
            assert(offsets@ =~= seq![0u32, 0, 0, 0]);
            assert(pitches@ =~= seq![pitch, 0u32, 0, 0]);
            assert(physical_addresses@ =~= seq![0u64, 0, 0, 0]);
        }
        DrmFramebuffer {
            id: DrmObjectId::new(ids),
            width,
            height,
            pitch,
            format,
            modifier: 0,
            handles,
            offsets,
            pitches,
            physical_addresses,
        }
    }

    /// A framebuffer with several planes.
    pub fn new_planar(
        width: u32,
        height: u32,
        format: DrmFormat,
        handles: [u32; 4],
        pitches: [u32; 4],
        offsets: [u32; 4],
        ids: &mut IdCounter,
    ) -> (f: Self)
        requires
            old(ids).next < u32::MAX,
        ensures
            f.id.0 == old(ids).next,
            final(ids).next == old(ids).next + 1,
            f.width == width && f.height == height && f.pitch == pitches@[0] && f.format == format
                && f.modifier == 0,
            f.handles == handles && f.offsets == offsets && f.pitches == pitches,
            f.physical_addresses@ == seq![0u64, 0, 0, 0],
    {
        let physical_addresses = [0u64, 0, 0, 0];
        assert(physical_addresses@ =~= seq![0u64, 0, 0, 0]);
        DrmFramebuffer {
            id: DrmObjectId::new(ids),
            width,
            height,
            pitch: pitches[0],
            format,
            modifier: 0,
            handles,
            offsets,
            pitches,
            physical_addresses,
        }
    }

    /// Bytes of the image.
    pub fn size(&self) -> (r: u32)
        requires
            self.height * self.pitch <= u32::MAX,
        ensures
            r == self.height * self.pitch,
    {
        self.height * self.pitch
    }

    /// Whether the framebuffer has an area and a buffer.
    pub fn is_valid(&self) -> (r: bool)
        ensures
            r == (self.width > 0 && self.height > 0 && self.pitch > 0 && self.handles@[0] != 0),
    {
        self.width > 0 && self.height > 0 && self.pitch > 0 && self.handles[0] != 0
    }

    /// How many planes the format has.
    pub fn num_planes(&self) -> (r: u32)
        ensures
            r == 1,
    {
        match self.format {
            DrmFormat::Xrgb8888
            | DrmFormat::Bgrx8888
            | DrmFormat::Argb8888
            | DrmFormat::Rgb888
            | DrmFormat::Rgb565 => 1,
        }
    }
}

impl DrmObject for DrmFramebuffer {
    open spec fn obj_id(&self) -> DrmObjectId {
        self.id
    }

    open spec fn obj_type(&self) -> DrmObjectType {
        DrmObjectType::Mode
    }

    fn id(&self) -> (r: DrmObjectId) {
        self.id
    }

    fn object_type(&self) -> (r: DrmObjectType) {
        DrmObjectType::Mode
    }
}

/// A buffer for drawing by software.
#[derive(Debug, Clone, Copy, PartialEq, Eq, Structural)]
pub struct DrmDumbBuffer {
    pub handle: u32,
    pub size: u32,
    pub pitch: u32,
    /// The address it is mapped at, 0 while it is not.
    pub address: u64,
    pub width: u32,
    pub height: u32,
    pub bpp: u32,
}

/// Bytes per row of `width` pixels of `bpp` bits, rounded up.
pub open spec fn row_bytes(width: int, bpp: int) -> int {
    (width * bpp + 7) / 8
}

/// The address that stands for a mapping.
pub const MAP_PLACEHOLDER: u64 = 0xDEAD_BEEF;

impl DrmDumbBuffer {
    /// A buffer of the given size, under the next handle.
    pub fn new(width: u32, height: u32, bpp: u32, handles: &mut IdCounter) -> (r: Result<
        Self,
        DriverError,
    >)
        requires
            width * bpp + 7 <= u32::MAX,
            height * row_bytes(width as int, bpp as int) <= u32::MAX,
        ensures
            r == Ok::<DrmDumbBuffer, DriverError>(
                DrmDumbBuffer {
                    handle: old(handles).next,
                    size: (height * row_bytes(width as int, bpp as int)) as u32,
                    pitch: row_bytes(width as int, bpp as int) as u32,
                    address: 0,
                    width,
                    height,
                    bpp,
                },
            ),
            final(handles).next == wrap_next(old(handles).next),
    {
        assert(0 <= width * bpp) by (nonlinear_arith);
        let pitch: u32 = (width * bpp + 7) / 8;
        assert(0 <= height * pitch) by (nonlinear_arith);
        let size: u32 = height * pitch;
        let handle = handles.next;
        handles.next = handles.next.wrapping_add(1);
        Ok(DrmDumbBuffer { handle, size, pitch, address: 0, width, height, bpp })
    }

    /// Maps the buffer and gives its address.
    pub fn map(&mut self) -> (r: Result<u64, DriverError>)
        ensures
            r == Ok::<u64, DriverError>(MAP_PLACEHOLDER),
            *final(self) == (DrmDumbBuffer { address: MAP_PLACEHOLDER, ..*old(self) }),
    {
        self.address = MAP_PLACEHOLDER;
        Ok(self.address)
    }

    /// Unmaps the buffer.
    pub fn unmap(&mut self) -> (r: Result<(), DriverError>)
        ensures
            r is Ok,
            *final(self) == (DrmDumbBuffer { address: 0, ..*old(self) }),
    {
        self.address = 0;
        Ok(())
    }
}

/// Unmapping undoes mapping.
pub proof fn lemma_unmap_undoes_map(b: DrmDumbBuffer)
    requires
        b.address == 0,
    ensures
        (DrmDumbBuffer { address: 0, ..(DrmDumbBuffer { address: MAP_PLACEHOLDER, ..b }) }) == b,
{
}

/// A request for a framebuffer.
#[derive(Debug, Clone, Copy, PartialEq, Eq, Structural)]
pub struct DrmFramebufferRequest {
    pub width: u32,
    pub height: u32,
    pub format: DrmFormat,
    pub flags: u32,
}

impl DrmFramebufferRequest {
    /// A request without flags.
    pub fn new(width: u32, height: u32, format: DrmFormat) -> (r: Self)
        ensures
            r == (DrmFramebufferRequest { width, height, format, flags: 0 }),
    {
        DrmFramebufferRequest { width, height, format, flags: 0 }
    }

    /// Checks the size: at least 1, at most 4096, each way.
    pub fn validate(&self) -> (r: Result<(), DriverError>)
        ensures
            r == (if 1 <= self.width <= 4096 && 1 <= self.height <= 4096 {
                Ok(())
            } else {
                Err(DriverError::Unsupported)
            }),
    {
        if self.width == 0 || self.height == 0 {
            return Err(DriverError::Unsupported);
        }
        if self.width > 4096 || self.height > 4096 {
            return Err(DriverError::Unsupported);
        }
        Ok(())
    }
}

} // verus!
