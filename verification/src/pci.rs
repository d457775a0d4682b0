//! PCI configuration space: addresses, fields, capabilities, and the devices on
//! the bus.
use vstd::prelude::*;
use vstd::string::StringSliceAdditionalSpecFns;
use crate::words::{hex, push_hex};

verus! {

/// A device on the bus.
#[derive(Debug, Clone, Copy)]
pub struct PciDevice {
    pub bus: u8,
    pub dev: u8,
    pub func: u8,
    pub vendor_id: u16,
    pub device_id: u16,
    pub class: u8,
    pub subclass: u8,
    pub bars: [u32; 6],
}

/// The configuration space of one function, as it was read.
#[derive(Debug, Clone, Copy)]
pub struct ConfigSpace {
    pub words: [u32; 64],
}

/// What the bus reads where there is no device.
pub const NO_DEVICE: u32 = 0xFFFF_FFFF;

/// The value that selects a word of configuration space.
pub fn config_address(bus: u8, dev: u8, func: u8, offset: u8) -> (addr: u32)
    ensures
        addr == ((bus as u32) << 16) | ((dev as u32) << 11) | ((func as u32) << 8) | ((
        offset as u32) & 0xFC) | 0x8000_0000,
        dev < 32 && func < 8 ==> addr == 0x8000_0000 + bus * 65536 + dev * 2048 + func * 256
            + offset / 4 * 4,
{
    let (b, d, f, o) = (bus as u32, dev as u32, func as u32, offset as u32);
    assert(d < 32 && f < 8 ==> (b << 16) | (d << 11) | (f << 8) | (o & 0xFC) | 0x8000_0000
        == 0x8000_0000 + b * 65536 + d * 2048 + f * 256 + o / 4 * 4) by (bit_vector)
        requires
            b < 256,
            d < 256,
            f < 256,
            o < 256,
    ;
    ((bus as u32) << 16) | ((dev as u32) << 11) | ((func as u32) << 8) | ((offset as u32) & 0xFC)
        | 0x8000_0000
}

/// Byte `k` of a word, the lowest first.
pub open spec fn byte_of(w: u32, k: int) -> u8 {
    if k == 0 {
        (w % 256) as u8
    } else if k == 1 {
        (w / 256 % 256) as u8
    } else if k == 2 {
        (w / 65536 % 256) as u8
    } else {
        (w / 0x100_0000) as u8
    }
}

/// The word made of four bytes, the lowest first.
pub open spec fn word_of(b0: u8, b1: u8, b2: u8, b3: u8) -> u32 {
    (b0 + b1 * 256 + b2 * 65536 + b3 * 0x100_0000) as u32
}

fn byte(w: u32, k: u8) -> (b: u8)
    requires
        k < 4,
    ensures
        b == byte_of(w, k as int),
{
    if k == 0 {
        (w % 256) as u8
    } else if k == 1 {
        (w / 256 % 256) as u8
    } else if k == 2 {
        (w / 65536 % 256) as u8
    } else {
        (w / 0x100_0000) as u8
    }
}

impl ConfigSpace {
    /// The byte at an offset.
    pub open spec fn at(self, offset: int) -> u8 {
        byte_of(self.words@[offset / 4], offset % 4)
    }
}

/// The byte at an offset.
pub fn pci_read_config_8(space: &ConfigSpace, offset: u8) -> (v: u8)
    ensures
        v == space.at(offset as int),
{
    byte(space.words[(offset / 4) as usize], offset % 4)
}

/// The two bytes at an offset; what lies beyond the word reads as zero.
pub open spec fn two_bytes(w: u32, k: int) -> int {
    byte_of(w, k) + (if k < 3 {
        byte_of(w, k + 1) * 256
    } else {
        0
    })
}

/// The two bytes at an offset, within one word.
pub fn pci_read_config_16(space: &ConfigSpace, offset: u8) -> (v: u16)
    ensures
        v == two_bytes(space.words@[offset as int / 4], offset as int % 4),
{
    let w = space.words[(offset / 4) as usize];
    let k: u8 = offset % 4;
    let low: u16 = byte(w, k) as u16;
    if k < 3 {
        low + byte(w, k + 1) as u16 * 256
    } else {
        low
    }
}

/// The word that holds an offset.
pub fn pci_read_config_32(space: &ConfigSpace, offset: u8) -> (v: u32)
    ensures
        v == space.words@[offset as int / 4],
{
    space.words[(offset / 4) as usize]
}

/// The four bytes from any offset on.
pub fn pci_read_config_32_any(space: &ConfigSpace, offset: u8) -> (v: u32)
    requires
        offset <= 252,
    ensures
        v == word_of(
            space.at(offset as int),
            space.at(offset + 1),
            space.at(offset + 2),
            space.at(offset + 3),
        ),
{
    let b0: u32 = pci_read_config_8(space, offset) as u32;
    let b1: u32 = pci_read_config_8(space, offset + 1) as u32;
    let b2: u32 = pci_read_config_8(space, offset + 2) as u32;
    let b3: u32 = pci_read_config_8(space, offset + 3) as u32;
    b0 + b1 * 256 + b2 * 65536 + b3 * 0x100_0000
}

/// A word with two of its bytes replaced; what lies beyond the word is dropped.
pub open spec fn merged(current: u32, k: int, val: u16) -> u32 {
    let b = |i: int|
        if i == k {
            (val % 256) as u8
        } else if i == k + 1 {
            (val / 256) as u8
        } else {
            byte_of(current, i)
        };
    word_of(b(0), b(1), b(2), b(3))
}

/// The word to write back so that the two bytes at an offset change.
pub fn pci_write_config_16(current: u32, offset: u8, val: u16) -> (word: u32)
    ensures
        word == merged(current, offset as int % 4, val),
{
    let k: u8 = offset % 4;
    let low: u32 = (val % 256) as u32;
    let high: u32 = (val / 256) as u32;
    let mut b0: u32 = byte(current, 0) as u32;
    let mut b1: u32 = byte(current, 1) as u32;
    let mut b2: u32 = byte(current, 2) as u32;
    let mut b3: u32 = byte(current, 3) as u32;
    if k == 0 {
        b0 = low;
        b1 = high;
    } else if k == 1 {
        b1 = low;
        b2 = high;
    } else if k == 2 {
        b2 = low;
        b3 = high;
    } else {
        b3 = low;
    }
    b0 + b1 * 256 + b2 * 65536 + b3 * 0x100_0000
}

proof fn lemma_bytes_of_word(b0: u8, b1: u8, b2: u8, b3: u8)
    ensures
        byte_of(word_of(b0, b1, b2, b3), 0) == b0,
        byte_of(word_of(b0, b1, b2, b3), 1) == b1,
        byte_of(word_of(b0, b1, b2, b3), 2) == b2,
        byte_of(word_of(b0, b1, b2, b3), 3) == b3,
{
    let w = word_of(b0, b1, b2, b3);
    assert(w == b0 + b1 * 256 + b2 * 65536 + b3 * 0x100_0000);
    assert(w / 256 == b1 + b2 * 256 + b3 * 65536);
    assert(w / 65536 == b2 + b3 * 256);
}

/// What is written reads back as it was, and the rest of the word stays.
pub proof fn lemma_config_reads_back(current: u32, k: int, val: u16)
    requires
        0 <= k < 3,
    ensures
        two_bytes(merged(current, k, val), k) == val,
        forall|i: int|
            0 <= i < 4 && i != k && i != k + 1 ==> byte_of(merged(current, k, val), i) == byte_of(
                current,
                i,
            ),
{
    let b = |i: int| byte_of(current, i);
    let (low, high) = ((val % 256) as u8, (val / 256) as u8);
    if k == 0 {
        lemma_bytes_of_word(low, high, b(2), b(3));
    } else if k == 1 {
        lemma_bytes_of_word(b(0), low, high, b(3));
    } else {
        lemma_bytes_of_word(b(0), b(1), low, high);
    }
}

/// The capability with the given number, found by following at most `left`
/// links from `ptr` on. A link of zero ends the list, and the last byte of the
/// space holds none.
pub open spec fn capability_from(space: ConfigSpace, cap_id: u8, ptr: u8, left: nat) -> Option<u8>
    decreases left,
{
    if ptr == 0 || left == 0 {
        None
    } else if space.at(ptr as int) == cap_id {
        Some(ptr)
    } else if ptr == 255 {
        None
    } else {
        capability_from(space, cap_id, space.at(ptr + 1), (left - 1) as nat)
    }
}

/// The capability list is there if bit 4 of the status register is set.
pub open spec fn capability_of(space: ConfigSpace, cap_id: u8) -> Option<u8> {
    if two_bytes(space.words@[1], 2) / 16 % 2 == 0 {
        None
    } else {
        capability_from(space, cap_id, space.at(0x34), 256)
    }
}

impl PciDevice {
    /// Where the capability with the given number starts, if the device has one.
    pub fn find_capability(&self, space: &ConfigSpace, cap_id: u8) -> (at: Option<u8>)
        ensures
            at == capability_of(*space, cap_id),
    {
        let status: u16 = pci_read_config_16(space, 0x06);
        if status / 16 % 2 == 0 {
            return None;
        }
        let mut ptr: u8 = pci_read_config_8(space, 0x34);
        let mut left: u16 = 256;
        while ptr != 0 && left > 0
            invariant
                capability_of(*space, cap_id) == capability_from(*space, cap_id, ptr, left as nat),
            decreases left,
        {
            if pci_read_config_8(space, ptr) == cap_id {
                return Some(ptr);
            }
            if ptr == 255 {
                return None;
            }
            ptr = pci_read_config_8(space, ptr + 1);
            left = left - 1;
        }
        None
    }
}

/// Where a capability is said to be, there is one with that number.
pub proof fn lemma_found_capability_is_one(space: ConfigSpace, cap_id: u8, ptr: u8, left: nat)
    requires
        capability_from(space, cap_id, ptr, left) is Some,
    ensures
        space.at(capability_from(space, cap_id, ptr, left)->0 as int) == cap_id,
        capability_from(space, cap_id, ptr, left)->0 != 0,
    decreases left,
{
    if space.at(ptr as int) != cap_id {
        lemma_found_capability_is_one(space, cap_id, space.at(ptr + 1), (left - 1) as nat);
    }
}

/// What was read of one place on the bus.
#[derive(Debug, Clone, Copy)]
pub struct Slot {
    pub bus: u8,
    pub dev: u8,
    /// The first word of configuration space.
    pub id: u32,
    /// The third word.
    pub class_rev: u32,
    /// The fifth to tenth word.
    pub bars: [u32; 6],
}

/// The device that a place holds.
pub open spec fn device_of(s: Slot) -> PciDevice {
    PciDevice {
        bus: s.bus,
        dev: s.dev,
        func: 0,
        vendor_id: (s.id % 65536) as u16,
        device_id: (s.id / 65536) as u16,
        class: byte_of(s.class_rev, 3),
        subclass: byte_of(s.class_rev, 2),
        bars: s.bars,
    }
}

/// The devices that a run of places holds, in order.
pub open spec fn devices_of(slots: Seq<Slot>) -> Seq<PciDevice>
    decreases slots.len(),
{
    if slots.len() == 0 {
        Seq::empty()
    } else if slots.last().id == NO_DEVICE {
        devices_of(slots.drop_last())
    } else {
        devices_of(slots.drop_last()).push(device_of(slots.last()))
    }
}

/// The devices on the bus, given what was read of every place on it.
pub fn scan(slots: &Vec<Slot>) -> (devices: Vec<PciDevice>)
    ensures
        devices@ == devices_of(slots@),
{
    let mut devices: Vec<PciDevice> = Vec::new();
    let mut i: usize = 0;
    assert(slots@.take(0) =~= Seq::empty());
    while i < slots.len()
        invariant
            i <= slots.len(),
            devices@ == devices_of(slots@.take(i as int)),
        decreases slots.len() - i,
    {
        let s = slots[i];
        assert(slots@.take(i + 1).drop_last() =~= slots@.take(i as int));
        if s.id != NO_DEVICE {
            devices.push(
                PciDevice {
                    bus: s.bus,
                    dev: s.dev,
                    func: 0,
                    vendor_id: (s.id % 65536) as u16,
                    device_id: (s.id / 65536) as u16,
                    class: byte(s.class_rev, 3),
                    subclass: byte(s.class_rev, 2),
                    bars: s.bars,
                },
            );
        }
        i += 1;
    }
    assert(slots@.take(slots@.len() as int) =~= slots@);
    devices
}

/// The device is of the given make.
pub open spec fn is_make(d: PciDevice, vendor_id: u16, device_id: u16) -> bool {
    d.vendor_id == vendor_id && d.device_id == device_id
}

/// The first device of the given make.
pub fn find_device(devices: &Vec<PciDevice>, vendor_id: u16, device_id: u16) -> (d: Option<
    PciDevice,
>)
    ensures
        match d {
            Some(d) => exists|i: int|
                0 <= i < devices@.len() && d == #[trigger] devices@[i] && is_make(
                    d,
                    vendor_id,
                    device_id,
                ) && forall|j: int| 0 <= j < i ==> !is_make(devices@[j], vendor_id, device_id),
            None => forall|j: int|
                0 <= j < devices@.len() ==> !is_make(devices@[j], vendor_id, device_id),
        },
{
    let mut i: usize = 0;
    while i < devices.len()
        invariant
            i <= devices.len(),
            forall|j: int| 0 <= j < i ==> !is_make(devices@[j], vendor_id, device_id),
        decreases devices.len() - i,
    {
        let d = devices[i];
        if d.vendor_id == vendor_id && d.device_id == device_id {
            assert(d == devices@[i as int]);
            return Some(d);
        }
        i += 1;
    }
    None
}

/// The bytes that a message sends to the debug port.
pub fn serial_debug(msg: &str) -> (bytes: &[u8])
    ensures
        bytes@ == msg.spec_bytes(),
{
    msg.as_bytes()
}

/// A number as the debug port shows it.
pub fn serial_debug_hex(v: u32) -> (text: String)
    ensures
        text@ == "0x"@ + hex(v as nat, 8),
{
    let mut text = "0x".to_owned();
    push_hex(&mut text, v as u64, 8);
    text
}

/// A wide number as the debug port shows it.
pub fn serial_debug_hex_64(v: u64) -> (text: String)
    ensures
        text@ == "0x"@ + hex(v as nat, 16),
{
    let mut text = "0x".to_owned();
    push_hex(&mut text, v, 16);
    text
}

} // verus!
