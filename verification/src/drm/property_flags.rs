//! Property flags.
use vstd::prelude::*;

verus! {

/// A change of value is pending.
pub const PENDING: u32 = 1;

pub const RANGE: u32 = 2;

/// The value cannot be changed.
pub const IMMUTABLE: u32 = 4;

pub const ENUM: u32 = 8;

pub const BLOB: u32 = 16;

pub const BITMASK: u32 = 32;

/// The value can be set atomically.
pub const ATOMIC: u32 = 0x8000_0000;

} // verus!
