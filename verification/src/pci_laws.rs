//! How configuration space is read.
use crate::pci::{byte_of, capability_from, capability_of, device_of, devices_of, ConfigSpace, Slot};
use vstd::prelude::*;

verus! {

/// The bytes of a word, the lowest first.
pub proof fn lemma_the_bytes_of_a_word(w: u32)
    ensures
        byte_of(w, 0) == w & 0xff,
        byte_of(w, 1) == (w >> 8) & 0xff,
        byte_of(w, 2) == (w >> 16) & 0xff,
        byte_of(w, 3) == w >> 24,
{
    assert(w & 0xff == w % 256 && (w >> 8) & 0xff == w / 256 % 256 && (w >> 16) & 0xff == w / 65536
        % 256 && w >> 24 == w / 0x100_0000) by (bit_vector);
}

/// What a device is stands in its first and third word: its vendor in the lower and
/// its number in the upper half of the one, its class in the highest and its subclass
/// in the next byte of the other.
pub proof fn lemma_what_a_device_is(s: Slot)
    ensures
        ({
            let d = device_of(s);
            &&& d.vendor_id == s.id & 0xffff
            &&& d.device_id == s.id >> 16
            &&& d.class == s.class_rev >> 24
            &&& d.subclass == (s.class_rev >> 16) & 0xff
            &&& (d.bus, d.dev, d.func) == (s.bus, s.dev, 0u8)
            &&& d.bars == s.bars
        }),
{
    let id = s.id;
    assert(id & 0xffff == id % 65536 && id >> 16 == id / 65536) by (bit_vector);
    lemma_the_bytes_of_a_word(s.class_rev);
}

/// Where the list of capabilities leads after `k` links.
pub open spec fn link(space: ConfigSpace, k: int) -> u8
    decreases k,
{
    if k <= 0 {
        space.at(0x34)
    } else {
        space.at(link(space, k - 1) + 1)
    }
}

/// From link `k` on.
proof fn lemma_following(space: ConfigSpace, cap_id: u8, k: int, n: int, left: nat)
    requires
        0 <= k <= n,
        n - k < left,
        forall|j: int| 0 <= j <= n ==> 0 < #[trigger] link(space, j) < 255,
        forall|j: int| 0 <= j < n ==> space.at(#[trigger] link(space, j) as int) != cap_id,
        space.at(link(space, n) as int) == cap_id,
    ensures
        capability_from(space, cap_id, link(space, k), left) == Some(link(space, n)),
    decreases n - k,
{
    assert(0 < link(space, k) < 255);
    if k < n {
        assert(space.at(link(space, k) as int) != cap_id);
        assert(link(space, k + 1) == space.at(link(space, k) + 1));
        lemma_following(space, cap_id, k + 1, n, (left - 1) as nat);
    }
}

/// A capability that is on the list is found: the list starts at the byte at 0x34, the
/// byte behind a capability's number leads to the next, and the first one with the
/// number is taken. Bit 4 of the status, which is bit 20 of the second word, says that
/// there is a list.
pub proof fn lemma_a_listed_capability_is_found(space: ConfigSpace, cap_id: u8, n: int)
    requires
        0 <= n < 256,
        forall|j: int| 0 <= j <= n ==> 0 < #[trigger] link(space, j) < 255,
        forall|j: int| 0 <= j < n ==> space.at(#[trigger] link(space, j) as int) != cap_id,
        space.at(link(space, n) as int) == cap_id,
    ensures
        capability_of(space, cap_id) == (if (space.words@[1] >> 20) & 1 == 1 {
            Some(link(space, n))
        } else {
            None
        }),
{
    lemma_following(space, cap_id, 0, n, 256);
    let w = space.words@[1];
    assert((w >> 20) & 1 == w / 0x10_0000 % 2) by (bit_vector);
    assert((w / 65536 % 256 + w / 0x100_0000 * 256) / 16 % 2 == w / 0x10_0000 % 2);
}

/// Every device on the bus is listed: one for each place whose first word is not all
/// ones.
pub proof fn lemma_every_device_is_listed(slots: Seq<Slot>, i: int)
    requires
        0 <= i < slots.len(),
        slots[i].id != 0xFFFF_FFFF,
    ensures
        devices_of(slots).contains(device_of(slots[i])),
    decreases slots.len(),
{
    let less = slots.drop_last();
    if i < less.len() {
        assert(less[i] == slots[i]);
        lemma_every_device_is_listed(less, i);
        let k = choose|k: int|
            0 <= k < devices_of(less).len() && devices_of(less)[k] == device_of(slots[i]);
        assert(devices_of(slots)[k] == device_of(slots[i]));
    } else {
        assert(devices_of(slots)[devices_of(less).len() as int] == device_of(slots[i]));
    }
}

/// What is listed is there.
pub proof fn lemma_only_devices_are_listed(slots: Seq<Slot>, k: int)
    requires
        0 <= k < devices_of(slots).len(),
    ensures
        exists|i: int|
            0 <= i < slots.len() && (#[trigger] slots[i]).id != 0xFFFF_FFFF && devices_of(slots)[k]
                == device_of(slots[i]),
        devices_of(slots).len() <= slots.len(),
    decreases slots.len(),
{
    let less = slots.drop_last();
    if less.len() > 0 && devices_of(less).len() > 0 {
        lemma_only_devices_are_listed(
            less,
            if k < devices_of(less).len() {
                k
            } else {
                0
            },
        );
    }
    if k < devices_of(less).len() {
        let i = choose|i: int|
            0 <= i < less.len() && (#[trigger] less[i]).id != 0xFFFF_FFFF && devices_of(less)[k]
                == device_of(less[i]);
        assert(slots[i] == less[i]);
    } else {
        assert(slots[slots.len() - 1] == slots.last());
    }
}

} // verus!
