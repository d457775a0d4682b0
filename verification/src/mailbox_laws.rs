//! What the messages to the firmware ask for, and what is read from its replies,
//! told by tag.
use crate::rpi_mailbox::{
    alloc_of, attempt_message, doubled, probe_message, probe_of, release_message, MboxError,
};
use vstd::prelude::*;

verus! {

/// Where the tag with the given number stands from word `at` on: a tag is its number,
/// the bytes of its values, a code, and the values.
pub open spec fn place_of(m: Seq<u32>, tag: u32, at: int) -> Option<int>
    decreases
            (if at < m.len() {
                m.len() - at
            } else {
                0
            }),
{
    if at < 0 || at + 2 >= m.len() || m[at] == 0 {
        None
    } else if m[at] == tag {
        Some(at)
    } else {
        place_of(m, tag, at + 3 + m[at + 1] / 4)
    }
}

/// Value `k` of a tag of a message.
pub open spec fn value(m: Seq<u32>, tag: u32, k: int) -> u32 {
    match place_of(m, tag, 2) {
        Some(at) => m[at + 3 + k],
        None => 0,
    }
}

/// The message has the tag.
pub open spec fn has_tag(m: Seq<u32>, tag: u32) -> bool {
    place_of(m, tag, 2) is Some
}

/// The reply is to the message: it has the same tags in the same places.
pub open spec fn replies_to(r: Seq<u32>, m: Seq<u32>) -> bool {
    &&& r.len() == m.len()
    &&& forall|tag: u32| #[trigger] place_of(r, tag, 2) == place_of(m, tag, 2)
}

/// A request for a framebuffer asks for the given size twice, as that of the display
/// and as that of the buffer, the latter with its own number of rows; for 32 bits a
/// pixel with blue lowest, no offset, and a buffer that starts on a page.
pub proof fn lemma_what_a_request_asks_for(w: u32, h: u32, rows: u32)
    ensures
        ({
            let m = attempt_message(w, h, rows);
            &&& (value(m, 0x4_8003, 0), value(m, 0x4_8003, 1)) == (w, h)
            &&& (value(m, 0x4_8004, 0), value(m, 0x4_8004, 1)) == (w, rows)
            &&& (value(m, 0x4_8009, 0), value(m, 0x4_8009, 1)) == (0u32, 0u32)
            &&& value(m, 0x4_8005, 0) == 32
            &&& value(m, 0x4_8006, 0) == 0
            &&& value(m, 0x4_0001, 0) == 4096
            &&& has_tag(m, 0x4_8006)
            &&& has_tag(m, 0x4_0008)
        }),
{
    reveal_with_fuel(place_of, 8);
}

/// The other messages: one asks for revisions, memory and the display's size, the
/// other gives the framebuffer back.
pub proof fn lemma_what_the_other_messages_ask_for()
    ensures
        has_tag(probe_message(), 0x1),
        has_tag(probe_message(), 0x1_0002),
        has_tag(probe_message(), 0x1_0005),
        has_tag(probe_message(), 0x1_0006),
        has_tag(probe_message(), 0x4_0003),
        has_tag(release_message(), 0x4_8001),
{
    reveal_with_fuel(place_of, 6);
}

/// What is read from a reply is what stands in it behind the tags that were asked
/// for.
pub proof fn lemma_a_probe_reads_its_tags(r: Seq<u32>)
    requires
        replies_to(r, probe_message()),
    ensures
        ({
            let p = probe_of(r);
            &&& p.firmware_rev == value(r, 0x1, 0)
            &&& p.board_rev == value(r, 0x1_0002, 0)
            &&& (p.arm_base, p.arm_size) == (value(r, 0x1_0005, 0), value(r, 0x1_0005, 1))
            &&& (p.vc_base, p.vc_size) == (
                value(r, 0x1_0006, 0) as u64,
                value(r, 0x1_0006, 1) as u64,
            )
            &&& (p.width, p.height) == (value(r, 0x4_0003, 0), value(r, 0x4_0003, 1))
        }),
{
    let m = probe_message();
    assert(place_of(m, 0x1, 2) == Some(2int) && place_of(m, 0x1_0002, 2) == Some(6int) && place_of(
        m,
        0x1_0005,
        2,
    ) == Some(10int) && place_of(m, 0x1_0006, 2) == Some(15int) && place_of(m, 0x4_0003, 2) == Some(
        20int,
    )) by {
        reveal_with_fuel(place_of, 6);
    }
    assert(place_of(r, 0x1, 2) == place_of(m, 0x1, 2));
    assert(place_of(r, 0x1_0002, 2) == place_of(m, 0x1_0002, 2));
    assert(place_of(r, 0x1_0005, 2) == place_of(m, 0x1_0005, 2));
    assert(place_of(r, 0x1_0006, 2) == place_of(m, 0x1_0006, 2));
    assert(place_of(r, 0x4_0003, 2) == place_of(m, 0x4_0003, 2));
}

/// Where the tags of a request for a framebuffer stand.
proof fn lemma_places(w: u32, h: u32, rows: u32)
    ensures
        ({
            let m = attempt_message(w, h, rows);
            &&& place_of(m, 0x4_8003, 2) == Some(2int)
            &&& place_of(m, 0x4_8004, 2) == Some(7int)
            &&& place_of(m, 0x4_8005, 2) == Some(17int)
            &&& place_of(m, 0x4_0001, 2) == Some(25int)
            &&& place_of(m, 0x4_0008, 2) == Some(30int)
        }),
{
    reveal_with_fuel(place_of, 8);
}

/// The framebuffer that a reply gives is the one that stands in it: size, address and
/// bytes a row are taken as they are, and it has as many rows as were given and fit
/// into what was allocated. It is refused if there is no size, no buffer, another
/// depth, or too few bytes a row.
pub proof fn lemma_a_framebuffer_reads_its_tags(
    r: Seq<u32>,
    w: u32,
    h: u32,
    rows: u32,
    vc_base: int,
    vc_size: int,
)
    requires
        replies_to(r, attempt_message(w, h, rows)),
    ensures
        ({
            let (width, height) = (value(r, 0x4_8003, 0), value(r, 0x4_8003, 1));
            let tall = value(r, 0x4_8004, 1);
            let (bus, size) = (value(r, 0x4_0001, 0), value(r, 0x4_0001, 1));
            let pitch = value(r, 0x4_0008, 0);
            match alloc_of(r, vc_base, vc_size) {
                Ok(a) => {
                    &&& a.width == width && a.bus == bus && a.size == size && a.pitch == pitch
                    &&& a.depth == 32 && value(r, 0x4_8005, 0) == 32
                    &&& 0 < a.height <= a.virt_height
                    &&& a.height <= height
                    &&& a.virt_height <= height || a.virt_height <= tall
                    &&& a.virt_height * pitch <= size
                    &&& a.virt_height >= height && a.virt_height >= tall || (a.virt_height + 1)
                        * pitch > size
                    &&& a.height == height || a.height == a.virt_height
                },
                Err(MboxError::NoDisplay) => width == 0 || height == 0 || bus == 0 || size == 0,
                Err(MboxError::TagFailed(tag)) => {
                    ||| tag == 0x4_8005 && value(r, 0x4_8005, 0) != 32
                    ||| tag == 0x4_0008 && (pitch < width * 4 || pitch < u32::MAX)
                    ||| tag == 0x4_0001 && pitch > size
                },
                Err(_) => false,
            }
        }),
{
    let m = attempt_message(w, h, rows);
    lemma_places(w, h, rows);
    assert(place_of(r, 0x4_8003, 2) == place_of(m, 0x4_8003, 2));
    assert(place_of(r, 0x4_8004, 2) == place_of(m, 0x4_8004, 2));
    assert(place_of(r, 0x4_8005, 2) == place_of(m, 0x4_8005, 2));
    assert(place_of(r, 0x4_0001, 2) == place_of(m, 0x4_0001, 2));
    assert(place_of(r, 0x4_0008, 2) == place_of(m, 0x4_0008, 2));
    let (size, pitch) = (r[29] as int, r[33] as int);
    if pitch > 0 {
        let q = size / pitch;
        vstd::arithmetic::div_mod::lemma_fundamental_div_mod(size, pitch);
        assert(q * pitch <= size < (q + 1) * pitch && (q == 0 ==> pitch > size))
            by (nonlinear_arith)
            requires
                size == pitch * q + size % pitch,
                0 <= size % pitch < pitch,
        ;
        if let Ok(a) = alloc_of(r, vc_base, vc_size) {
            let v = a.virt_height as int;
            assert(v * pitch <= q * pitch) by (nonlinear_arith)
                requires
                    v <= q,
                    0 < pitch,
            ;
        }
    }
}

/// The tall buffer has twice the rows, as far as they can be counted.
pub proof fn lemma_twice_the_rows(h: u32)
    ensures
        2 * h <= u32::MAX ==> doubled(h) == 2 * h,
        2 * h > u32::MAX ==> doubled(h) == u32::MAX,
{
}

} // verus!
