//! What holds of the modes that are read, made up and chosen.
use crate::drm::device::{first_with, DrmDevice};
use crate::drm::modes::{
    cvt_frame, cvt_line, distance, is_best, mode_check, same_mode, same_size, sync_width, vesa_table,
};
use crate::drm::objects::{downscale, upscale, DrmModeInfo, DrmObjectId};
use crate::kms::preferred_mode;
use crate::DriverError;
use vstd::prelude::*;

verus! {

/// The first detailed timing of a display's block, byte by byte: the clock in steps
/// of 10 kHz, then for columns and for rows the visible part and the blanking, each
/// of twelve bits, of which the upper four share a byte.
pub open spec fn describes(b: Seq<u8>, clock: int, w: int, hb: int, h: int, vb: int) -> bool {
    &&& b.len() >= 128
    &&& b[54] == clock % 256
    &&& b[55] == clock / 256
    &&& b[56] == w % 256
    &&& b[57] == hb % 256
    &&& b[58] == w / 256 * 16 + hb / 256
    &&& b[59] == h % 256
    &&& b[60] == vb % 256
    &&& b[61] == h / 256 * 16 + vb / 256
}

/// The mode that a display prefers reads back from its block: the size as it was
/// described, the clock in kHz, and as many whole frames a second as the clock gives
/// for lines and frames with their blanking. Without a size or a clock there is
/// none.
pub proof fn lemma_the_preferred_mode_reads_back(
    b: Seq<u8>,
    clock: int,
    w: int,
    hb: int,
    h: int,
    vb: int,
)
    requires
        describes(b, clock, w, hb, h, vb),
        0 <= clock < 0x1_0000,
        0 <= w < 4096,
        0 <= hb < 4096,
        0 <= h < 4096,
        0 <= vb < 4096,
    ensures
        preferred_mode(b) is None <==> clock == 0 || w == 0 || h == 0,
        preferred_mode(b) matches Some(m) ==> {
            let frame = (w + hb) * (h + vb);
            &&& m.width == w
            &&& m.height == h
            &&& m.pixel_clock == clock * 10
            &&& m.refresh_rate * frame <= clock * 10_000 < (m.refresh_rate + 1) * frame
        },
{
    let d = b.skip(54);
    assert(d[0] == b[54] && d[1] == b[55] && d[2] == b[56] && d[3] == b[57] && d[4] == b[58]
        && d[5] == b[59] && d[6] == b[60] && d[7] == b[61]);
    assert((w / 256 * 16 + hb / 256) / 16 == w / 256 && (w / 256 * 16 + hb / 256) % 16 == hb / 256);
    assert((h / 256 * 16 + vb / 256) / 16 == h / 256 && (h / 256 * 16 + vb / 256) % 16 == vb / 256);
    let frame = (w + hb) * (h + vb);
    let all = clock * 10_000;
    if clock != 0 && w != 0 && h != 0 {
        assert(frame >= 1) by (nonlinear_arith)
            requires
                w >= 1,
                hb >= 0,
                h >= 1,
                vb >= 0,
                frame == (w + hb) * (h + vb),
        ;
        let q = all / frame;
        vstd::arithmetic::div_mod::lemma_fundamental_div_mod(all, frame);
        assert(q * frame <= all < (q + 1) * frame && 0 <= q <= all) by (nonlinear_arith)
            requires
                all == frame * q + all % frame,
                0 <= all % frame < frame,
                0 <= all,
                frame >= 1,
        ;
        assert(preferred_mode(b)->Some_0.refresh_rate == q);
    }
}

/// A made-up mode has the size and the rate it is made for. What is shown comes
/// first, then the sync pulse, and then the rest of the blanking, which is an eighth
/// of the columns and a twentieth of the rows; the clock is the one in kHz that comes
/// nearest to the rate.
pub proof fn lemma_a_made_up_mode_gives_its_rate(
    m: DrmModeInfo,
    width: u16,
    height: u16,
    refresh: u32,
)
    requires
        m.is_mode(width, height, refresh),
    ensures
        m.hdisplay == width,
        m.vdisplay == height,
        m.vrefresh == refresh,
        8 * (m.htotal - width) <= width < 8 * (m.htotal - width) + 8,
        20 * (m.vtotal - height) <= height < 20 * (m.vtotal - height) + 20,
        -500 < m.clock * 1000 - m.htotal * m.vtotal * refresh <= 500,
        m.hdisplay < m.hsync_start,
        m.vdisplay < m.vsync_start < m.vsync_end,
        width >= 64 ==> m.hsync_start < m.hsync_end < m.htotal,
{
}

/// The pulse of the coordinated timing is eight hundredths of the width, to the
/// nearest pixel, and a line has three of that length behind what is shown.
pub proof fn lemma_coordinated_blanking(width: int, height: int)
    requires
        0 <= width,
    ensures
        -50 <= 100 * sync_width(width) - 8 * width <= 50,
        cvt_line(width) - width == 3 * sync_width(width),
        cvt_frame(height) - height == 12,
{
}

/// A scale factor is the smallest whole number of times that one extent has to be
/// repeated to cover the other.
pub proof fn lemma_a_scale_factor_covers(src: u32, crtc: u32)
    requires
        src >= 65536,
        crtc > 0,
    ensures
        ({
            let pixels = (src / 65536) as int;
            let (up, down) = (upscale(src, crtc), downscale(src, crtc));
            &&& (up - 1) * pixels < crtc <= up * pixels
            &&& (down - 1) * crtc < pixels <= down * crtc
        }),
{
    let pixels = (src / 65536) as int;
    lemma_round_up(crtc as int, pixels);
    lemma_round_up(pixels, crtc as int);
}

proof fn lemma_round_up(a: int, b: int)
    requires
        0 < a,
        0 < b,
    ensures
        ((a + b - 1) / b - 1) * b < a <= (a + b - 1) / b * b,
{
    let q = (a + b - 1) / b;
    vstd::arithmetic::div_mod::lemma_fundamental_div_mod(a + b - 1, b);
    assert((q - 1) * b < a <= q * b) by (nonlinear_arith)
        requires
            a + b - 1 == b * q + (a + b - 1) % b,
            0 <= (a + b - 1) % b < b,
    ;
}

/// A mode can be set on a crtc exactly if the crtc exists and the mode shows something,
/// at most 4096 pixels each way, at no more than 240 Hz. What is wrong with the mode is
/// said before what is wrong with the crtc.
pub proof fn lemma_which_modes_can_be_set(d: DrmDevice, m: DrmModeInfo, id: DrmObjectId, i: int)
    requires
        first_with(d.crtcs@, id, i),
    ensures
        mode_check(d, m, id) is Ok <==> m.hdisplay > 0 && m.vdisplay > 0 && m.hdisplay <= 4096
            && m.vdisplay <= 4096 && m.vrefresh <= 240,
        mode_check(d, m, id) != Err::<(), DriverError>(DriverError::NotFound),
{
}

/// Every standard mode can be set, and is the best for a display of its own size and
/// rate.
pub proof fn lemma_standard_modes_can_be_set(
    d: DrmDevice,
    m: DrmModeInfo,
    id: DrmObjectId,
    at: int,
    i: int,
)
    requires
        first_with(d.crtcs@, id, at),
        0 <= i < vesa_table().len(),
        m.is_mode(vesa_table()[i].0, vesa_table()[i].1, vesa_table()[i].2),
    ensures
        mode_check(d, m, id) is Ok,
        forall|j: int|
            #[trigger] is_best(
                j,
                vesa_table()[i].0 as int,
                vesa_table()[i].1 as int,
                vesa_table()[i].2 as int,
            ) ==> vesa_table()[j] == vesa_table()[i],
{
    let v = vesa_table()[i];
    assert(same_mode(i, v.0 as int, v.1 as int, v.2 as int));
    assert(vesa_table().len() == 21);
    assert(1 <= v.0 <= 4096 && 1 <= v.1 <= 4096 && v.2 <= 240);
    lemma_which_modes_can_be_set(d, m, id, at);
}

/// The magnitude of a difference.
pub open spec fn apart(a: int, b: int) -> int {
    if a < b {
        b - a
    } else {
        a - b
    }
}

/// The best mode for a size that no standard mode has is one that no other comes nearer
/// to, columns and rows taken together; for a size that there is, it is one of that
/// size.
pub proof fn lemma_the_best_mode_is_the_nearest(i: int, j: int, w: int, h: int, refresh: int)
    requires
        is_best(i, w, h, refresh),
        0 <= j < vesa_table().len(),
    ensures
        ({
            let (a, b) = (vesa_table()[i], vesa_table()[j]);
            &&& apart(a.0 as int, w) + apart(a.1 as int, h) <= apart(b.0 as int, w) + apart(
                b.1 as int,
                h,
            )
            &&& (b.0 as int, b.1 as int, b.2 as int) == (w, h, refresh) ==> a == b
        }),
{
    let b = vesa_table()[j];
    if same_size(j, w, h) {
        assert(same_mode(j, w, h, refresh) || b.2 != refresh);
    }
    assert(distance(j, w, h) == apart(b.0 as int, w) + apart(b.1 as int, h));
    assert(distance(i, w, h) == apart(vesa_table()[i].0 as int, w) + apart(
        vesa_table()[i].1 as int,
        h,
    ));
    assert(distance(j, w, h) == 0 ==> same_size(j, w, h));
}

} // verus!
