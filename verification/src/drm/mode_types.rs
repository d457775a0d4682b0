//! Where a mode comes from.
use vstd::prelude::*;

verus! {

pub const BUILTIN: u32 = 0x01;

pub const CLOCK_C: u32 = 0x02;

pub const CRTC_C: u32 = 0x04;

pub const PREFERRED: u32 = 0x08;

pub const DEFAULT: u32 = 0x10;

pub const USERDEF: u32 = 0x20;

pub const DRIVER: u32 = 0x40;

} // verus!
