//! What holds of the requests that place planes, make buffers and wait for flips.
use crate::bytes::{le32, le64, lemma_read_of_write32, lemma_read_of_write64, u32_at, u64_at};
use crate::drm::modes::scaled_plane;
use crate::drm::objects::{DrmObjectId, DrmPlaneState};
use crate::drm_console::whole_display;
use crate::drm_device_interface::{asked_plane, dumb_pitch, flip_words, whole_plane, SetCrtc};
use crate::flip_events::{event_at, event_bytes, VblankEvent};
use crate::kms_props::{kind_of, values_of};
use crate::prop_blobs::{clip_area, clip_at, Clip};
use vstd::prelude::*;

verus! {

/// The words of a request that asks for a plane state.
pub open spec fn plane_words(s: DrmPlaneState) -> Seq<u32> {
    let number = |id: Option<DrmObjectId>|
        match id {
            Some(i) => i.0,
            None => 0u32,
        };
    seq![
        s.plane_id.0,
        number(s.crtc_id),
        number(s.fb_id),
        s.crtc_x as u32,
        s.crtc_y as u32,
        s.crtc_w,
        s.crtc_h,
        s.src_x,
        s.src_y,
        s.src_w,
        s.src_h,
    ]
}

/// A signed word that is passed as an unsigned one comes back.
proof fn lemma_signed_word(v: i32)
    ensures
        (v as u32) as i32 == v,
{
    assert((v as u32) as i32 == v) by (bit_vector);
}

/// The plane that a request asks for is the one that its words were made from.
pub proof fn lemma_a_plane_request_reads_back(s: DrmPlaneState)
    requires
        s.crtc_id != Some(DrmObjectId(0)),
        s.fb_id != Some(DrmObjectId(0)),
    ensures
        asked_plane(plane_words(s)) == s,
{
    lemma_signed_word(s.crtc_x);
    lemma_signed_word(s.crtc_y);
}

/// A size in sixteen bits of fraction.
proof fn lemma_fixed_point(v: u32)
    requires
        v < 0x1_0000,
    ensures
        v << 16 == v * 65536,
{
    assert(v << 16 == v * 65536) by (bit_vector)
        requires
            v < 0x1_0000,
    ;
}

/// A framebuffer that is shown as a whole is taken from its first pixel on, in its
/// full size with sixteen bits of fraction, and spread over the whole display.
pub proof fn lemma_a_whole_framebuffer_fills_the_display(
    device: crate::drm::device::DrmDevice,
    info: crate::drm::device::FramebufferInfo,
    fb_id: u32,
    w: u32,
    h: u32,
)
    requires
        w < 0x1_0000,
        h < 0x1_0000,
    ensures
        ({
            let p = whole_plane(device, info, fb_id, w, h);
            &&& p.fb_id == Some(DrmObjectId(fb_id))
            &&& (p.src_x, p.src_y, p.src_w as int, p.src_h as int) == (
                0u32,
                0u32,
                w * 65536,
                h * 65536,
            )
            &&& (p.crtc_x, p.crtc_y) == (0i32, 0i32)
            &&& device.crtcs@.len() > 0 ==> {
                &&& device.crtcs@[0].mode matches Some(m) ==> p.crtc_w == m.hdisplay && p.crtc_h
                    == m.vdisplay
                &&& device.crtcs@[0].mode is None ==> p.crtc_w == info.width && p.crtc_h
                    == info.height
            }
        }),
{
    lemma_fixed_point(w);
    lemma_fixed_point(h);
}

/// A scaled plane takes the whole source and goes where it is to go.
pub proof fn lemma_a_scaled_plane_goes_where_it_is_put(
    plane: DrmObjectId,
    crtc: DrmObjectId,
    fb: DrmObjectId,
    w: u32,
    h: u32,
    x: i32,
    y: i32,
    dst_w: u32,
    dst_h: u32,
)
    requires
        w < 0x1_0000,
        h < 0x1_0000,
    ensures
        ({
            let p = scaled_plane(plane, crtc, fb, w, h, x, y, dst_w, dst_h);
            &&& (p.plane_id, p.crtc_id, p.fb_id) == (plane, Some(crtc), Some(fb))
            &&& (p.crtc_x, p.crtc_y, p.crtc_w, p.crtc_h) == (x, y, dst_w, dst_h)
            &&& (p.src_x, p.src_y) == (0u32, 0u32)
            &&& (p.src_w as int, p.src_h as int) == (w * 65536, h * 65536)
        }),
{
    lemma_fixed_point(w);
    lemma_fixed_point(h);
}

/// A row of a buffer holds its pixels in whole bytes each, and no more than that.
pub proof fn lemma_a_row_holds_whole_pixels(width: u32, bpp: u32, each: int)
    requires
        0 <= 8 * each - bpp < 8,
    ensures
        dumb_pitch(width, bpp) == width * each,
{
    assert((bpp + 7) / 8 == each);
}

/// The time of an event is that of its tick, of which there are 100 in a second.
pub proof fn lemma_an_event_tells_its_time(now: u64, sequence: u32, crtc_id: u32, user_data: u64)
    requires
        now / 100 <= u32::MAX,
    ensures
        ({
            let e = event_at(now, sequence, crtc_id, user_data);
            &&& e.tv_sec * 1_000_000 + e.tv_usec == now * 10_000
            &&& e.tv_usec < 1_000_000
            &&& e.sequence == sequence
            &&& e.crtc_id == crtc_id
            &&& e.user_data == user_data
        }),
{
}

/// An event as it is read: its kind and length, what the client passed, and when,
/// which and where it was.
pub proof fn lemma_an_event_reads_back(e: VblankEvent)
    ensures
        ({
            let b = event_bytes(e);
            &&& b.len() == 32
            &&& u32_at(b, 0) == 2
            &&& u32_at(b, 4) == 32
            &&& u64_at(b, 8) == e.user_data
            &&& u32_at(b, 16) == e.tv_sec
            &&& u32_at(b, 20) == e.tv_usec
            &&& u32_at(b, 24) == e.sequence
            &&& u32_at(b, 28) == e.crtc_id
        }),
{
    let b = event_bytes(e);
    let (k, l, u) = (le32(2), le32(32), le64(e.user_data));
    let (s, m) = (le32(e.tv_sec), le32(e.tv_usec));
    let (q, c) = (le32(e.sequence), le32(e.crtc_id));
    let none = Seq::<u8>::empty();
    assert(b =~= none + k + (l + u + s + m + q + c));
    lemma_read_of_write32(2, none, l + u + s + m + q + c);
    assert(b =~= k + l + (u + s + m + q + c));
    lemma_read_of_write32(32, k, u + s + m + q + c);
    assert(b =~= (k + l) + u + (s + m + q + c));
    lemma_read_of_write64(e.user_data, k + l, s + m + q + c);
    assert(b =~= (k + l + u) + s + (m + q + c));
    lemma_read_of_write32(e.tv_sec, k + l + u, m + q + c);
    assert(b =~= (k + l + u + s) + m + (q + c));
    lemma_read_of_write32(e.tv_usec, k + l + u + s, q + c);
    assert(b =~= (k + l + u + s + m) + q + c);
    lemma_read_of_write32(e.sequence, k + l + u + s + m, c);
    assert(b =~= (k + l + u + s + m + q) + c + none);
    lemma_read_of_write32(e.crtc_id, k + l + u + s + m + q, none);
}

/// A clip as a client writes it: its left, top, right and bottom edge.
pub open spec fn clip_bytes(c: Clip) -> Seq<u8> {
    le32(c.x1 as u32) + le32(c.y1 as u32) + le32(c.x2 as u32) + le32(c.y2 as u32)
}

/// A clip reads back from the list that a client wrote.
pub proof fn lemma_a_clip_reads_back(before: Seq<u8>, c: Clip, after: Seq<u8>)
    requires
        before.len() % 16 == 0,
    ensures
        clip_at(before + clip_bytes(c) + after, before.len() as int / 16) == c,
{
    let all = before + clip_bytes(c) + after;
    let n = before.len() as int;
    let (a, b) = (le32(c.x1 as u32), le32(c.y1 as u32));
    let (d, e) = (le32(c.x2 as u32), le32(c.y2 as u32));
    assert(16 * (n / 16) == n);
    assert(all =~= before + a + (b + d + e + after));
    lemma_read_of_write32(c.x1 as u32, before, b + d + e + after);
    assert(all =~= (before + a) + b + (d + e + after));
    lemma_read_of_write32(c.y1 as u32, before + a, d + e + after);
    assert(all =~= (before + a + b) + d + (e + after));
    lemma_read_of_write32(c.x2 as u32, before + a + b, e + after);
    assert(all =~= (before + a + b + d) + e + after);
    lemma_read_of_write32(c.y2 as u32, before + a + b + d, after);
    lemma_signed_word(c.x1);
    lemma_signed_word(c.y1);
    lemma_signed_word(c.x2);
    lemma_signed_word(c.y2);
}

/// The pixels of a clip are those between its edges; an empty or inverted one has
/// none.
pub proof fn lemma_a_clip_has_the_pixels_between_its_edges(c: Clip, w: int, h: int)
    requires
        w == c.x2 - c.x1,
        h == c.y2 - c.y1,
    ensures
        w > 0 && h > 0 ==> clip_area(c) == w * h,
        w <= 0 || h <= 0 ==> clip_area(c) == 0,
{
}

/// Places on the screen are reported as signed words from the lowest to the highest,
/// sizes and source coordinates as unsigned ones, and the switch of the crtc as 0
/// or 1.
pub proof fn lemma_property_ranges(id: u32)
    ensures
        id == 47 || id == 48 ==> values_of(kind_of(id)->Some_0) == seq![
            0xFFFF_FFFF_8000_0000u64,
            0x7FFF_FFFFu64,
        ],
        43 <= id <= 46 || id == 49 || id == 50 ==> values_of(kind_of(id)->Some_0) == seq![
            0u64,
            0xFFFF_FFFFu64,
        ],
        id == 60 ==> values_of(kind_of(id)->Some_0) == seq![0u64, 1u64],
{
    assert((-0x8000_0000i64) as u64 == 0xFFFF_FFFF_8000_0000u64) by (bit_vector);
}

/// A framebuffer that a crtc is set to is shown in its own size, or, if it is not
/// registered, in that of the mode.
pub proof fn lemma_a_set_framebuffer_is_shown_in_its_size(
    device: crate::drm::device::DrmDevice,
    req: SetCrtc,
)
    ensures
        ({
            let words = flip_words(device, req);
            &&& words[0] == req.fb_id
            &&& device.framebuffers@.contains_key(req.fb_id) ==> {
                &&& words[2] == device.framebuffers@[req.fb_id].width
                &&& words[3] == device.framebuffers@[req.fb_id].height
            }
            &&& !device.framebuffers@.contains_key(req.fb_id) ==> {
                &&& words[2] == req.hdisplay
                &&& words[3] == req.vdisplay
            }
        }),
{
}

/// The console's framebuffer is shown in the size of its mode, from its first pixel on,
/// over the whole display.
pub proof fn lemma_the_console_fills_the_display(
    plane: DrmObjectId,
    crtc: DrmObjectId,
    mode: (u32, u32, u32),
    fb: DrmObjectId,
)
    requires
        mode.0 < 0x1_0000,
        mode.1 < 0x1_0000,
    ensures
        ({
            let s = whole_display(plane, Some(crtc), Some(mode), fb);
            &&& s.len() == 1
            &&& (s[0].plane_id, s[0].crtc_id, s[0].fb_id) == (plane, Some(crtc), Some(fb))
            &&& (s[0].crtc_x, s[0].crtc_y, s[0].crtc_w, s[0].crtc_h) == (0i32, 0i32, mode.0, mode.1)
            &&& (s[0].src_x, s[0].src_y) == (0u32, 0u32)
            &&& (s[0].src_w as int, s[0].src_h as int) == (mode.0 * 65536, mode.1 * 65536)
        }),
{
    lemma_fixed_point(mode.0);
    lemma_fixed_point(mode.1);
}

} // verus!
