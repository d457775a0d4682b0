//! How a font file is read.
use crate::raster::{drawn, Line};
use crate::vector_font::{
    be16, be32, contours_drawn, edges_drawn, entry_of, glyph_bitmap, header_of, is_font, signed16,
    table_offset, units_of,
};
use vstd::prelude::*;

verus! {

/// Numbers in a font file have their highest byte first.
pub proof fn lemma_the_highest_byte_comes_first(b: Seq<u8>, at: int)
    ensures
        be16(b, at) == 0x100 * b[at] + b[at + 1],
        be32(b, at) == 0x100_0000 * b[at] + 0x1_0000 * b[at + 1] + 0x100 * b[at + 2] + b[at + 3],
        signed16(be16(b, at)) == (if b[at] < 0x80 {
            0x100 * b[at] + b[at + 1]
        } else {
            0x100 * b[at] + b[at + 1] - 0x1_0000
        }),
{
}

/// A file of at least twelve bytes is a font exactly if it starts with one of the two
/// known signatures.
pub proof fn lemma_a_font_starts_with_a_signature(b: Seq<u8>)
    requires
        b.len() >= 12,
    ensures
        is_font(b) <==> (b[0], b[1], b[2], b[3]) == (0u8, 1u8, 0u8, 0u8) || (b[0], b[1], b[2], b[3])
            == (0x4Fu8, 0x54u8, 0x54u8, 0x4Fu8),
        header_of(b).num_tables == 0x100 * b[4] + b[5],
{
}

/// A table is found through the entry that names it, which stands sixteen bytes
/// behind the one before and has the place of the table behind its name and its
/// checksum. Where two entries name it the later one counts.
pub proof fn lemma_a_table_is_found(b: Seq<u8>, tag: u32, i: int, n: int)
    requires
        0 <= i < n,
        be32(b, 12 + 16 * i) == tag,
        forall|j: int| i < j < n ==> (#[trigger] entry_of(b, j)).tag != tag,
    ensures
        table_offset(b, tag, n) == Some(be32(b, 20 + 16 * i)),
    decreases n,
{
    if i < n - 1 {
        assert(entry_of(b, n - 1).tag != tag);
        lemma_a_table_is_found(b, tag, i, n - 1);
    }
}

/// A table that no entry names is not found.
pub proof fn lemma_a_table_that_is_not_there(b: Seq<u8>, tag: u32, n: int)
    requires
        forall|j: int| 0 <= j < n ==> (#[trigger] entry_of(b, j)).tag != tag,
    ensures
        table_offset(b, tag, n) is None,
    decreases n,
{
    if n > 0 {
        assert(entry_of(b, n - 1).tag != tag);
        lemma_a_table_that_is_not_there(b, tag, n - 1);
    }
}

/// The units of a font stand eighteen bytes into one table, and its ascent, descent
/// and line gap one after the other four bytes into another.
pub proof fn lemma_the_metrics_of_a_font(b: Seq<u8>, head: u32, hhea: u32)
    requires
        head + 54 <= b.len(),
        hhea + 36 <= b.len(),
    ensures
        ({
            let u = units_of(b, Some(head), Some(hhea));
            &&& u.units_per_em == be16(b, head + 18)
            &&& u.ascent == signed16(be16(b, hhea + 4))
            &&& u.descent == signed16(be16(b, hhea + 6))
            &&& u.line_gap == signed16(be16(b, hhea + 8))
            &&& units_of(b, None, Some(hhea)).units_per_em == 1000
        }),
{
}

/// Edge `j` of a closed outline: from its point `j` to the next one, and from the last
/// one to the first.
pub open spec fn edge(points: Seq<(i32, i32)>, j: int) -> Line {
    let p = points[j];
    let q = if j + 1 < points.len() {
        points[j + 1]
    } else {
        points[0]
    };
    Line { x1: p.0 as int, y1: p.1 as int, x2: q.0 as int, y2: q.1 as int }
}

/// One of the first `k` edges of an outline passes a pixel.
pub open spec fn edges_pass(points: Seq<(i32, i32)>, k: int, x: int, y: int) -> bool {
    exists|j: int| 0 <= j < k && #[trigger] edge(points, j).passes(x, y)
}

/// One of the first `k` outlines passes a pixel.
pub open spec fn outlines_pass(contours: Seq<Vec<(i32, i32)>>, k: int, x: int, y: int) -> bool {
    exists|m: int|
        0 <= m < k && #[trigger] edges_pass(contours[m]@, contours[m]@.len() as int, x, y)
}

proof fn lemma_edges_drawn(b: Seq<u8>, points: Seq<(i32, i32)>, k: int, x: int, y: int)
    requires
        b.len() == 1024,
        0 <= k <= points.len(),
        0 <= x < 16,
        0 <= y < 32,
    ensures
        edges_drawn(b, points, k, 16).len() == 1024,
        edges_drawn(b, points, k, 16)[16 * y + x] == (if edges_pass(points, k, x, y) {
            255u8
        } else {
            b[16 * y + x]
        }),
    decreases k,
{
    if k > 0 {
        lemma_edges_drawn(b, points, k - 1, x, y);
        let before = edges_drawn(b, points, k - 1, 16);
        let l = edge(points, k - 1);
        let n = points.len();
        if k < n {
            vstd::arithmetic::div_mod::lemma_small_mod(k as nat, n);
        } else {
            vstd::arithmetic::div_mod::lemma_mod_self_0(n as int);
        }
        assert(edges_drawn(b, points, k, 16) == drawn(before, l, 16));
        assert((16 * y + x) / 16 == y && (16 * y + x) % 16 == x);
        if edges_pass(points, k - 1, x, y) {
            let j = choose|j: int| 0 <= j < k - 1 && #[trigger] edge(points, j).passes(x, y);
            assert(edge(points, j).passes(x, y));
        }
        if l.passes(x, y) {
            assert(edge(points, k - 1).passes(x, y));
        }
    }
}

proof fn lemma_outlines_drawn(contours: Seq<Vec<(i32, i32)>>, k: int, x: int, y: int)
    requires
        0 <= k <= contours.len(),
        0 <= x < 16,
        0 <= y < 32,
    ensures
        ({
            let b = contours_drawn(Seq::new(1024, |i: int| 0u8), contours, k, 16);
            &&& b.len() == 1024
            &&& b[16 * y + x] == (if outlines_pass(contours, k, x, y) {
                255u8
            } else {
                0
            })
        }),
    decreases k,
{
    if k > 0 {
        lemma_outlines_drawn(contours, k - 1, x, y);
        let before = contours_drawn(Seq::new(1024, |i: int| 0u8), contours, k - 1, 16);
        let points = contours[k - 1]@;
        lemma_edges_drawn(before, points, points.len() as int, x, y);
        if outlines_pass(contours, k - 1, x, y) {
            let m = choose|m: int|
                0 <= m < k - 1 && #[trigger] edges_pass(
                    contours[m]@,
                    contours[m]@.len() as int,
                    x,
                    y,
                );
            assert(edges_pass(contours[m]@, contours[m]@.len() as int, x, y));
        }
        if edges_pass(points, points.len() as int, x, y) {
            assert(edges_pass(contours[k - 1]@, contours[k - 1]@.len() as int, x, y));
        }
    }
}

/// A glyph is its outlines: of its 16 by 32 pixels exactly those are lit that an edge of
/// one of its outlines passes.
pub proof fn lemma_a_glyph_is_its_outlines(contours: Seq<Vec<(i32, i32)>>, x: int, y: int)
    requires
        0 <= x < 16,
        0 <= y < 32,
    ensures
        glyph_bitmap(contours).len() == 1024,
        glyph_bitmap(contours)[16 * y + x] == (if outlines_pass(
            contours,
            contours.len() as int,
            x,
            y,
        ) {
            255u8
        } else {
            0
        }),
{
    lemma_outlines_drawn(contours, contours.len() as int, x, y);
}

} // verus!
