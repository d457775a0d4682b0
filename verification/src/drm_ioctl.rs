//! The requests that the display device takes.
use vstd::prelude::*;

verus! {

/// A request.
#[derive(Debug, Clone, Copy, PartialEq, Eq, Structural)]
pub enum Ioctl {
    // The system's own.
    SetMode,
    CreateFramebuffer,
    GetMode,
    FlipPage,
    SetPlane,
    GetCapabilities,
    Mmap,
    VScreenInfo,
    // The standard ones.
    Version,
    GetResources,
    GetConnector,
    GetEncoder,
    GetCrtc,
    SetCrtc,
    CreateDumb,
    MapDumb,
    DestroyDumb,
    AddFb,
    AddFb2,
    RmFb,
    DirtyFb,
    PageFlip,
    GetCap,
    SetClientCap,
    SetMaster,
    DropMaster,
    GetMagic,
    AuthMagic,
    GemClose,
    ObjGetProperties,
    GetPlaneResources,
    GetPlane,
    GetProperty,
    Atomic,
    CreatePropBlob,
    DestroyPropBlob,
    GetPropBlob,
    PrimeHandleToFd,
    PrimeFdToHandle,
    // Those of the graphics processor.
    GpuMap,
    GpuExecbuffer,
    GpuGetParam,
    GpuResourceCreate,
    GpuResourceInfo,
    GpuTransferFromHost,
    GpuTransferToHost,
    GpuWait,
    GpuGetCaps,
    GpuResourceCreateBlob,
    GpuContextInit,
}

impl Ioctl {
    /// The number of the request.
    pub open spec fn number(self) -> u32 {
        match self {
            Ioctl::SetMode => 0x1001,
            Ioctl::CreateFramebuffer => 0x1002,
            Ioctl::GetMode => 0x1003,
            Ioctl::FlipPage => 0x1004,
            Ioctl::SetPlane => 0x1005,
            Ioctl::GetCapabilities => 0x1006,
            Ioctl::Mmap => 0x1007,
            Ioctl::VScreenInfo => 0x4600,
            Ioctl::Version => 0xC040_6400,
            Ioctl::GetResources => 0xC040_64A0,
            Ioctl::GetConnector => 0xC050_64A7,
            Ioctl::GetEncoder => 0xC014_64A6,
            Ioctl::GetCrtc => 0xC068_64A1,
            Ioctl::SetCrtc => 0xC068_64A2,
            Ioctl::CreateDumb => 0xC020_64B2,
            Ioctl::MapDumb => 0xC010_64B3,
            Ioctl::DestroyDumb => 0xC004_64B4,
            Ioctl::AddFb => 0xC01C_64AE,
            Ioctl::AddFb2 => 0xC068_64B8,
            Ioctl::RmFb => 0xC004_64AF,
            Ioctl::DirtyFb => 0xC018_64B1,
            Ioctl::PageFlip => 0xC018_64B0,
            Ioctl::GetCap => 0xC010_640C,
            Ioctl::SetClientCap => 0x4010_640D,
            Ioctl::SetMaster => 0x641E,
            Ioctl::DropMaster => 0x641F,
            Ioctl::GetMagic => 0x8004_6402,
            Ioctl::AuthMagic => 0x4004_6411,
            Ioctl::GemClose => 0x4008_6409,
            Ioctl::ObjGetProperties => 0xC020_64B9,
            Ioctl::GetPlaneResources => 0xC010_64B5,
            Ioctl::GetPlane => 0xC020_64B6,
            Ioctl::GetProperty => 0xC040_64AA,
            Ioctl::Atomic => 0xC038_64BC,
            Ioctl::CreatePropBlob => 0xC010_64BD,
            Ioctl::DestroyPropBlob => 0xC004_64BE,
            Ioctl::GetPropBlob => 0xC010_64AC,
            Ioctl::PrimeHandleToFd => 0xC00C_642D,
            Ioctl::PrimeFdToHandle => 0xC00C_642E,
            Ioctl::GpuMap => 0xC010_6441,
            Ioctl::GpuExecbuffer => 0xC040_6442,
            Ioctl::GpuGetParam => 0xC010_6443,
            Ioctl::GpuResourceCreate => 0xC038_6444,
            Ioctl::GpuResourceInfo => 0xC010_6445,
            Ioctl::GpuTransferFromHost => 0xC02C_6446,
            Ioctl::GpuTransferToHost => 0xC02C_6447,
            Ioctl::GpuWait => 0xC008_6448,
            Ioctl::GpuGetCaps => 0xC018_6449,
            Ioctl::GpuResourceCreateBlob => 0xC030_644A,
            Ioctl::GpuContextInit => 0xC010_644B,
        }
    }

    /// The request reads or writes a structure that its argument points to, and
    /// refuses a null one.
    pub open spec fn checks_argument(self) -> bool {
        match self {
            Ioctl::SetMode => false,
            Ioctl::CreateFramebuffer => false,
            Ioctl::FlipPage => false,
            Ioctl::SetPlane => false,
            Ioctl::GetCapabilities => false,
            Ioctl::Mmap => false,
            Ioctl::SetMaster => false,
            Ioctl::DropMaster => false,
            Ioctl::AuthMagic => false,
            Ioctl::PrimeHandleToFd => false,
            Ioctl::PrimeFdToHandle => false,
            Ioctl::GpuTransferFromHost => false,
            Ioctl::GpuTransferToHost => false,
            _ => true,
        }
    }

    /// The request puts a client's picture on the screen.
    pub open spec fn takes_screen(self) -> bool {
        self == Ioctl::SetMode || self == Ioctl::FlipPage || self == Ioctl::SetCrtc || self
            == Ioctl::PageFlip
    }

    /// The request with the given number.
    pub fn of(cmd: u32) -> (r: Option<Ioctl>)
        ensures
            match r {
                Some(i) => i.number() == cmd,
                None => forall|i: Ioctl| #[trigger] i.number() != cmd,
            },
    {
        match cmd {
            0x1001 => Some(Ioctl::SetMode),
            0x1002 => Some(Ioctl::CreateFramebuffer),
            0x1003 => Some(Ioctl::GetMode),
            0x1004 => Some(Ioctl::FlipPage),
            0x1005 => Some(Ioctl::SetPlane),
            0x1006 => Some(Ioctl::GetCapabilities),
            0x1007 => Some(Ioctl::Mmap),
            0x4600 => Some(Ioctl::VScreenInfo),
            0xC040_6400 => Some(Ioctl::Version),
            0xC040_64A0 => Some(Ioctl::GetResources),
            0xC050_64A7 => Some(Ioctl::GetConnector),
            0xC014_64A6 => Some(Ioctl::GetEncoder),
            0xC068_64A1 => Some(Ioctl::GetCrtc),
            0xC068_64A2 => Some(Ioctl::SetCrtc),
            0xC020_64B2 => Some(Ioctl::CreateDumb),
            0xC010_64B3 => Some(Ioctl::MapDumb),
            0xC004_64B4 => Some(Ioctl::DestroyDumb),
            0xC01C_64AE => Some(Ioctl::AddFb),
            0xC068_64B8 => Some(Ioctl::AddFb2),
            0xC004_64AF => Some(Ioctl::RmFb),
            0xC018_64B1 => Some(Ioctl::DirtyFb),
            0xC018_64B0 => Some(Ioctl::PageFlip),
            0xC010_640C => Some(Ioctl::GetCap),
            0x4010_640D => Some(Ioctl::SetClientCap),
            0x641E => Some(Ioctl::SetMaster),
            0x641F => Some(Ioctl::DropMaster),
            0x8004_6402 => Some(Ioctl::GetMagic),
            0x4004_6411 => Some(Ioctl::AuthMagic),
            0x4008_6409 => Some(Ioctl::GemClose),
            0xC020_64B9 => Some(Ioctl::ObjGetProperties),
            0xC010_64B5 => Some(Ioctl::GetPlaneResources),
            0xC020_64B6 => Some(Ioctl::GetPlane),
            0xC040_64AA => Some(Ioctl::GetProperty),
            0xC038_64BC => Some(Ioctl::Atomic),
            0xC010_64BD => Some(Ioctl::CreatePropBlob),
            0xC004_64BE => Some(Ioctl::DestroyPropBlob),
            0xC010_64AC => Some(Ioctl::GetPropBlob),
            0xC00C_642D => Some(Ioctl::PrimeHandleToFd),
            0xC00C_642E => Some(Ioctl::PrimeFdToHandle),
            0xC010_6441 => Some(Ioctl::GpuMap),
            0xC040_6442 => Some(Ioctl::GpuExecbuffer),
            0xC010_6443 => Some(Ioctl::GpuGetParam),
            0xC038_6444 => Some(Ioctl::GpuResourceCreate),
            0xC010_6445 => Some(Ioctl::GpuResourceInfo),
            0xC02C_6446 => Some(Ioctl::GpuTransferFromHost),
            0xC02C_6447 => Some(Ioctl::GpuTransferToHost),
            0xC008_6448 => Some(Ioctl::GpuWait),
            0xC018_6449 => Some(Ioctl::GpuGetCaps),
            0xC030_644A => Some(Ioctl::GpuResourceCreateBlob),
            0xC010_644B => Some(Ioctl::GpuContextInit),
            _ => None,
        }
    }

    /// Whether a null argument is refused.
    pub fn needs_argument(&self) -> (b: bool)
        ensures
            b == self.checks_argument(),
    {
        match self {
            Ioctl::SetMode => false,
            Ioctl::CreateFramebuffer => false,
            Ioctl::FlipPage => false,
            Ioctl::SetPlane => false,
            Ioctl::GetCapabilities => false,
            Ioctl::Mmap => false,
            Ioctl::SetMaster => false,
            Ioctl::DropMaster => false,
            Ioctl::AuthMagic => false,
            Ioctl::PrimeHandleToFd => false,
            Ioctl::PrimeFdToHandle => false,
            Ioctl::GpuTransferFromHost => false,
            Ioctl::GpuTransferToHost => false,
            _ => true,
        }
    }
}

/// The parts of a request's number: which way its structure goes, how long it is,
/// whose request it is, and its own number.
#[derive(Debug, Clone, Copy, PartialEq, Eq, Structural)]
pub struct IoctlParts {
    /// 1: in. 2: out. 3: both. 0: there is none.
    pub dir: u32,
    pub size: u32,
    pub typ: u32,
    pub nr: u32,
}

/// The parts of a request's number.
pub open spec fn parts_of(cmd: u32) -> IoctlParts {
    IoctlParts {
        dir: cmd / 0x4000_0000,
        size: cmd / 65536 % 16384,
        typ: cmd / 256 % 256,
        nr: cmd % 256,
    }
}

/// Takes a request's number apart.
pub fn ioctl_parts(cmd: u32) -> (p: IoctlParts)
    ensures
        p == parts_of(cmd),
{
    IoctlParts {
        dir: cmd / 0x4000_0000,
        size: cmd / 65536 % 16384,
        typ: cmd / 256 % 256,
        nr: cmd % 256,
    }
}

/// How long the structure of a standard request is, and the request's own number.
/// Those of the graphics processor count from 0x40 on.
pub open spec fn shape_of(i: Ioctl) -> Option<(u32, u32)> {
    match i {
        Ioctl::Version => Some((64, 0x00)),
        Ioctl::GetResources => Some((64, 0xA0)),
        Ioctl::GetConnector => Some((80, 0xA7)),
        Ioctl::GetEncoder => Some((20, 0xA6)),
        Ioctl::GetCrtc => Some((104, 0xA1)),
        Ioctl::SetCrtc => Some((104, 0xA2)),
        Ioctl::CreateDumb => Some((32, 0xB2)),
        Ioctl::MapDumb => Some((16, 0xB3)),
        Ioctl::DestroyDumb => Some((4, 0xB4)),
        Ioctl::AddFb => Some((28, 0xAE)),
        Ioctl::AddFb2 => Some((104, 0xB8)),
        Ioctl::RmFb => Some((4, 0xAF)),
        Ioctl::DirtyFb => Some((24, 0xB1)),
        Ioctl::PageFlip => Some((24, 0xB0)),
        Ioctl::GetCap => Some((16, 0x0C)),
        Ioctl::SetClientCap => Some((16, 0x0D)),
        Ioctl::SetMaster => Some((0, 0x1E)),
        Ioctl::DropMaster => Some((0, 0x1F)),
        Ioctl::GetMagic => Some((4, 0x02)),
        Ioctl::AuthMagic => Some((4, 0x11)),
        Ioctl::GemClose => Some((8, 0x09)),
        Ioctl::ObjGetProperties => Some((32, 0xB9)),
        Ioctl::GetPlaneResources => Some((16, 0xB5)),
        Ioctl::GetPlane => Some((32, 0xB6)),
        Ioctl::GetProperty => Some((64, 0xAA)),
        Ioctl::Atomic => Some((56, 0xBC)),
        Ioctl::CreatePropBlob => Some((16, 0xBD)),
        Ioctl::DestroyPropBlob => Some((4, 0xBE)),
        Ioctl::GetPropBlob => Some((16, 0xAC)),
        Ioctl::PrimeHandleToFd => Some((12, 0x2D)),
        Ioctl::PrimeFdToHandle => Some((12, 0x2E)),
        Ioctl::GpuMap => Some((16, 0x41)),
        Ioctl::GpuExecbuffer => Some((64, 0x42)),
        Ioctl::GpuGetParam => Some((16, 0x43)),
        Ioctl::GpuResourceCreate => Some((56, 0x44)),
        Ioctl::GpuResourceInfo => Some((16, 0x45)),
        Ioctl::GpuTransferFromHost => Some((44, 0x46)),
        Ioctl::GpuTransferToHost => Some((44, 0x47)),
        Ioctl::GpuWait => Some((8, 0x48)),
        Ioctl::GpuGetCaps => Some((24, 0x49)),
        Ioctl::GpuResourceCreateBlob => Some((48, 0x4A)),
        Ioctl::GpuContextInit => Some((16, 0x4B)),
        _ => None,
    }
}

/// The number of a standard request spells out its structure and itself, and is
/// of the display's kind.
pub proof fn lemma_numbers_are_encoded(i: Ioctl)
    requires
        shape_of(i) is Some,
    ensures
        parts_of(i.number()).size == (shape_of(i)->0).0,
        parts_of(i.number()).nr == (shape_of(i)->0).1,
        parts_of(i.number()).typ == 0x64,
        parts_of(i.number()).dir == 0 <==> (shape_of(i)->0).0 == 0,
{
}

/// No two requests have one number.
pub proof fn lemma_numbers_differ(a: Ioctl, b: Ioctl)
    requires
        a.number() == b.number(),
    ensures
        a == b,
{
}

} // verus!
