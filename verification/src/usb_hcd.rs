//! The registry of USB devices. No host controller is driven, so it is empty.
use vstd::prelude::*;

verus! {

/// What a list of USB devices says of one.
#[derive(Debug, Clone, Copy, PartialEq, Eq, Structural)]
pub struct UsbDevInfo {
    pub bus: u8,
    pub address: u8,
    pub vendor_id: u16,
    pub product_id: u16,
    pub class: u8,
}

/// Brings up the host controllers: there are none to bring up.
pub fn init() {
}

pub fn device_count() -> (n: usize)
    ensures
        n == 0,
{
    0
}

/// The device with the given number.
pub fn device_info(_index: usize) -> (d: Option<UsbDevInfo>)
    ensures
        d is None,
{
    None
}

} // verus!
