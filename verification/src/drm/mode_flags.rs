//! Mode flags.
use vstd::prelude::*;

verus! {

pub const PHSYNC: u32 = 0x0001;

pub const NHSYNC: u32 = 0x0002;

pub const PVSYNC: u32 = 0x0004;

pub const NVSYNC: u32 = 0x0008;

pub const INTERLACE: u32 = 0x0010;

pub const DBLSCAN: u32 = 0x0020;

pub const CSYNC: u32 = 0x0040;

pub const PCSYNC: u32 = 0x0080;

pub const NCSYNC: u32 = 0x0100;

pub const HSKEW: u32 = 0x0200;

pub const BCAST: u32 = 0x0400;

pub const PIXMUX: u32 = 0x0800;

pub const DBLCLK: u32 = 0x1000;

pub const CLKDIV2: u32 = 0x2000;

} // verus!
