//! Outline fonts: reading the tables of a font file, and drawing outlines into
//! small bitmaps.
use crate::raster::{draw_line, drawn, Line};
use vstd::prelude::*;

verus! {

/// Why a font file is refused.
#[derive(Debug, Clone, Copy, PartialEq, Eq, Structural)]
pub enum FontError {
    InvalidFont,
    ParseError,
    UnsupportedFormat,
}

/// The start of a font file.
#[derive(Debug, Clone, Copy, PartialEq, Eq, Structural)]
pub struct TTHeader {
    pub sfnt_version: u32,
    pub num_tables: u16,
    pub search_range: u16,
    pub entry_selector: u16,
    pub range_shift: u16,
}

/// An entry of the table directory.
#[derive(Debug, Clone, Copy, PartialEq, Eq, Structural)]
pub struct TTTableEntry {
    pub tag: u32,
    pub checksum: u32,
    pub offset: u32,
    pub length: u32,
}

/// The `head` table: the font as a whole.
#[derive(Debug, Clone, Copy)]
pub struct HeadTable {
    pub version: u32,
    pub font_revision: u32,
    pub checksum_adjustment: u32,
    pub magic_number: u32,
    pub flags: u16,
    pub units_per_em: u16,
    pub created: [u32; 2],
    pub modified: [u32; 2],
    pub x_min: i16,
    pub y_min: i16,
    pub x_max: i16,
    pub y_max: i16,
    pub mac_style: u16,
    pub lowest_rec_ppem: u16,
    pub font_direction_hint: i16,
    pub index_to_loc_format: i16,
    pub glyph_data_format: i16,
}

/// The `hhea` table: lines of text.
#[derive(Debug, Clone, Copy)]
pub struct HheaTable {
    pub version: u32,
    pub ascent: i16,
    pub descent: i16,
    pub line_gap: i16,
    pub advance_width_max: u16,
    pub min_left_side_bearing: i16,
    pub min_right_side_bearing: i16,
    pub x_max_extent: i16,
    pub caret_slope_rise: i16,
    pub caret_slope_run: i16,
    pub caret_offset: i16,
    pub reserved: [i16; 4],
    pub metric_data_format: i16,
    pub num_long_hor_metrics: u16,
}

/// The start of the table that maps characters to glyphs.
#[derive(Debug, Clone, Copy, PartialEq, Eq, Structural)]
pub struct CmapHeader {
    pub version: u16,
    pub num_subtables: u16,
}

/// One of its encodings.
#[derive(Debug, Clone, Copy, PartialEq, Eq, Structural)]
pub struct CmapSubtable {
    pub platform_id: u16,
    pub encoding_id: u16,
    pub offset: u32,
}

/// The metrics of a font in its own units.
#[derive(Debug, Clone, Copy, PartialEq, Eq, Structural)]
pub struct FontUnits {
    pub ascent: i16,
    pub descent: i16,
    pub line_gap: i16,
    pub units_per_em: u16,
}

/// Bytes of the file header.
pub const HEADER_BYTES: usize = 12;

/// Bytes of a directory entry.
pub const ENTRY_BYTES: usize = 16;

/// Bytes of a `head` table.
pub const HEAD_BYTES: u64 = 54;

/// Bytes of an `hhea` table.
pub const HHEA_BYTES: u64 = 36;

/// The two versions that are read: outlines of either kind.
pub const SFNT_TRUETYPE: u32 = 0x00010000;

pub const SFNT_OPENTYPE: u32 = 0x4F54544F;

/// The tags of the tables that hold the metrics.
pub const TAG_HEAD: u32 = 0x68656164;

pub const TAG_HHEA: u32 = 0x68686561;

/// The big-endian number of two bytes at `at`.
pub open spec fn be16(b: Seq<u8>, at: int) -> u16 {
    (b[at] * 256 + b[at + 1]) as u16
}

/// The big-endian number of four bytes at `at`.
pub open spec fn be32(b: Seq<u8>, at: int) -> u32 {
    (be16(b, at) * 65536 + be16(b, at + 2)) as u32
}

/// The same two bytes with a sign.
pub open spec fn signed16(v: u16) -> i16 {
    (if v < 0x8000 { v as int } else { v - 0x10000 }) as i16
}

fn read_be16(b: &[u8], at: usize) -> (v: u16)
    requires
        at + 2 <= b@.len(),
    ensures
        v == be16(b@, at as int),
{
    b[at] as u16 * 256 + b[at + 1] as u16
}

fn read_be32(b: &[u8], at: usize) -> (v: u32)
    requires
        at + 4 <= b@.len(),
    ensures
        v == be32(b@, at as int),
{
    let len: usize = b.len();
    assert(at + 4 <= len);
    read_be16(b, at) as u32 * 65536 + read_be16(b, at + 2) as u32
}

fn with_sign(v: u16) -> (r: i16)
    ensures
        r == signed16(v),
{
    if v < 0x8000 {
        v as i16
    } else {
        (v as i32 - 0x10000) as i16
    }
}

/// The header at the start of a file.
pub open spec fn header_of(data: Seq<u8>) -> TTHeader {
    TTHeader {
        sfnt_version: be32(data, 0),
        num_tables: be16(data, 4),
        search_range: be16(data, 6),
        entry_selector: be16(data, 8),
        range_shift: be16(data, 10),
    }
}

/// Directory entry `i`.
pub open spec fn entry_of(data: Seq<u8>, i: int) -> TTTableEntry {
    let at = HEADER_BYTES + i * ENTRY_BYTES;
    TTTableEntry {
        tag: be32(data, at),
        checksum: be32(data, at + 4),
        offset: be32(data, at + 8),
        length: be32(data, at + 12),
    }
}

/// How many directory entries the header announces and the file really holds.
pub open spec fn entry_count(data: Seq<u8>) -> int {
    let room = (data.len() - HEADER_BYTES) / (ENTRY_BYTES as int);
    let told = header_of(data).num_tables as int;
    if told <= room { told } else { room }
}

/// Where the table `tag` starts, by the last of the first `n` entries that
/// names it.
pub open spec fn table_offset(data: Seq<u8>, tag: u32, n: int) -> Option<u32>
    decreases n,
{
    if n <= 0 {
        None
    } else if entry_of(data, n - 1).tag == tag {
        Some(entry_of(data, n - 1).offset)
    } else {
        table_offset(data, tag, n - 1)
    }
}

/// The metrics where the tables start at the given places. A table that is
/// missing or cut off leaves its metrics at their defaults.
pub open spec fn units_of(data: Seq<u8>, head: Option<u32>, hhea: Option<u32>) -> FontUnits {
    let scale: u16 = match head {
        Some(o) if o + HEAD_BYTES <= data.len() => be16(data, o + 18),
        _ => 1000,
    };
    match hhea {
        Some(o) if o + HHEA_BYTES <= data.len() => FontUnits {
            ascent: signed16(be16(data, o + 4)),
            descent: signed16(be16(data, o + 6)),
            line_gap: signed16(be16(data, o + 8)),
            units_per_em: scale,
        },
        _ => FontUnits { ascent: 0, descent: 0, line_gap: 0, units_per_em: scale },
    }
}

/// Whether a file starts like a font.
pub open spec fn is_font(data: Seq<u8>) -> bool {
    &&& data.len() >= HEADER_BYTES
    &&& header_of(data).sfnt_version == SFNT_TRUETYPE || header_of(data).sfnt_version
        == SFNT_OPENTYPE
}

/// Reads the metrics of a font file. A table that is missing or cut off leaves
/// its metrics at their defaults.
pub fn parse_font(data: &[u8]) -> (r: Result<FontUnits, FontError>)
    ensures
        is_font(data@) <==> r is Ok,
        r matches Err(e) ==> e == FontError::InvalidFont,
        r matches Ok(m) ==> m == units_of(
            data@,
            table_offset(data@, TAG_HEAD, entry_count(data@)),
            table_offset(data@, TAG_HHEA, entry_count(data@)),
        ),
{
    if data.len() < HEADER_BYTES {
        return Err(FontError::InvalidFont);
    }
    let version = read_be32(data, 0);
    if version != SFNT_TRUETYPE && version != SFNT_OPENTYPE {
        return Err(FontError::InvalidFont);
    }
    let told: usize = read_be16(data, 4) as usize;
    let room: usize = (data.len() - HEADER_BYTES) / ENTRY_BYTES;
    let n: usize = if told <= room { told } else { room };
    let mut head: Option<u32> = None;
    let mut hhea: Option<u32> = None;
    let mut i: usize = 0;
    while i < n
        invariant
            i <= n,
            HEADER_BYTES + n * ENTRY_BYTES <= data@.len(),
            head == table_offset(data@, TAG_HEAD, i as int),
            hhea == table_offset(data@, TAG_HHEA, i as int),
        decreases n - i,
    {
        let len: usize = data.len();
        let at: usize = HEADER_BYTES + i * ENTRY_BYTES;
        let tag = read_be32(data, at);
        let offset = read_be32(data, at + 8);
        if tag == TAG_HEAD {
            head = Some(offset);
        } else if tag == TAG_HHEA {
            hhea = Some(offset);
        }
        i = i + 1;
    }
    let mut units = FontUnits { ascent: 0, descent: 0, line_gap: 0, units_per_em: 1000 };
    if let Some(o) = head {
        if o as u64 + HEAD_BYTES <= data.len() as u64 {
            units.units_per_em = read_head(data, o as usize).units_per_em;
        }
    }
    if let Some(o) = hhea {
        if o as u64 + HHEA_BYTES <= data.len() as u64 {
            let table = read_hhea(data, o as usize);
            units.ascent = table.ascent;
            units.descent = table.descent;
            units.line_gap = table.line_gap;
        }
    }
    Ok(units)
}

/// Reads the `head` table at `at`.
pub fn read_head(data: &[u8], at: usize) -> (t: HeadTable)
    requires
        at + HEAD_BYTES <= data@.len(),
    ensures
        t.version == be32(data@, at as int),
        t.font_revision == be32(data@, at + 4),
        t.checksum_adjustment == be32(data@, at + 8),
        t.magic_number == be32(data@, at + 12),
        t.flags == be16(data@, at + 16),
        t.units_per_em == be16(data@, at + 18),
        t.created@ == seq![be32(data@, at + 20), be32(data@, at + 24)],
        t.modified@ == seq![be32(data@, at + 28), be32(data@, at + 32)],
        t.x_min == signed16(be16(data@, at + 36)),
        t.y_min == signed16(be16(data@, at + 38)),
        t.x_max == signed16(be16(data@, at + 40)),
        t.y_max == signed16(be16(data@, at + 42)),
        t.mac_style == be16(data@, at + 44),
        t.lowest_rec_ppem == be16(data@, at + 46),
        t.font_direction_hint == signed16(be16(data@, at + 48)),
        t.index_to_loc_format == signed16(be16(data@, at + 50)),
        t.glyph_data_format == signed16(be16(data@, at + 52)),
{
    let len: usize = data.len();
    let t = HeadTable {
        version: read_be32(data, at),
        font_revision: read_be32(data, at + 4),
        checksum_adjustment: read_be32(data, at + 8),
        magic_number: read_be32(data, at + 12),
        flags: read_be16(data, at + 16),
        units_per_em: read_be16(data, at + 18),
        created: [read_be32(data, at + 20), read_be32(data, at + 24)],
        modified: [read_be32(data, at + 28), read_be32(data, at + 32)],
        x_min: with_sign(read_be16(data, at + 36)),
        y_min: with_sign(read_be16(data, at + 38)),
        x_max: with_sign(read_be16(data, at + 40)),
        y_max: with_sign(read_be16(data, at + 42)),
        mac_style: read_be16(data, at + 44),
        lowest_rec_ppem: read_be16(data, at + 46),
        font_direction_hint: with_sign(read_be16(data, at + 48)),
        index_to_loc_format: with_sign(read_be16(data, at + 50)),
        glyph_data_format: with_sign(read_be16(data, at + 52)),
    };
    assert(t.created@ =~= seq![be32(data@, at + 20), be32(data@, at + 24)]);
    assert(t.modified@ =~= seq![be32(data@, at + 28), be32(data@, at + 32)]);
    t
}

/// Reads the `hhea` table at `at`.
pub fn read_hhea(data: &[u8], at: usize) -> (t: HheaTable)
    requires
        at + HHEA_BYTES <= data@.len(),
    ensures
        t.version == be32(data@, at as int),
        t.ascent == signed16(be16(data@, at + 4)),
        t.descent == signed16(be16(data@, at + 6)),
        t.line_gap == signed16(be16(data@, at + 8)),
        t.advance_width_max == be16(data@, at + 10),
        t.min_left_side_bearing == signed16(be16(data@, at + 12)),
        t.min_right_side_bearing == signed16(be16(data@, at + 14)),
        t.x_max_extent == signed16(be16(data@, at + 16)),
        t.caret_slope_rise == signed16(be16(data@, at + 18)),
        t.caret_slope_run == signed16(be16(data@, at + 20)),
        t.caret_offset == signed16(be16(data@, at + 22)),
        t.reserved@ == Seq::new(4, |i: int| signed16(be16(data@, at + 24 + 2 * i))),
        t.metric_data_format == signed16(be16(data@, at + 32)),
        t.num_long_hor_metrics == be16(data@, at + 34),
{
    let len: usize = data.len();
    let t = HheaTable {
        version: read_be32(data, at),
        ascent: with_sign(read_be16(data, at + 4)),
        descent: with_sign(read_be16(data, at + 6)),
        line_gap: with_sign(read_be16(data, at + 8)),
        advance_width_max: read_be16(data, at + 10),
        min_left_side_bearing: with_sign(read_be16(data, at + 12)),
        min_right_side_bearing: with_sign(read_be16(data, at + 14)),
        x_max_extent: with_sign(read_be16(data, at + 16)),
        caret_slope_rise: with_sign(read_be16(data, at + 18)),
        caret_slope_run: with_sign(read_be16(data, at + 20)),
        caret_offset: with_sign(read_be16(data, at + 22)),
        reserved: [
            with_sign(read_be16(data, at + 24)),
            with_sign(read_be16(data, at + 26)),
            with_sign(read_be16(data, at + 28)),
            with_sign(read_be16(data, at + 30)),
        ],
        metric_data_format: with_sign(read_be16(data, at + 32)),
        num_long_hor_metrics: read_be16(data, at + 34),
    };
    assert(t.reserved@ =~= Seq::new(4, |i: int| signed16(be16(data@, at + 24 + 2 * i))));
    t
}

/// A small font file: a header, a directory of four tables, and their start.
pub const TTF_DATA: [u8; 256] = [
    0x00, 0x01, 0x00, 0x00, 0x00, 0x04, 0x00, 0x40, 0x00, 0x02, 0x00, 0x00, 0x68, 0x65, 0x61, 0x64,
    0x00, 0x00, 0x00, 0x00, 0x00, 0x00, 0x00, 0x50, 0x00, 0x00, 0x00, 0x36, 0x68, 0x68, 0x65, 0x61,
    0x00, 0x00, 0x00, 0x00, 0x00, 0x00, 0x00, 0x90, 0x00, 0x00, 0x00, 0x24, 0x63, 0x6D, 0x61, 0x70,
    0x00, 0x00, 0x00, 0x00, 0x00, 0x00, 0x00, 0xB4, 0x00, 0x00, 0x00, 0x20, 0x67, 0x6C, 0x79, 0x66,
    0x00, 0x00, 0x00, 0x00, 0x00, 0x00, 0x00, 0xD4, 0x00, 0x00, 0x00, 0x40, 0x00, 0x01, 0x00, 0x00,
    0x00, 0x01, 0x00, 0x00, 0x5F, 0x0F, 0x3C, 0xF5, 0x5F, 0x0F, 0x3C, 0xF5, 0x00, 0x0B, 0x04, 0x00,
    0x00, 0x00, 0x00, 0x00, 0x00, 0x00, 0x00, 0x00, 0x00, 0x00, 0x00, 0x00, 0x00, 0x00, 0x00, 0x00,
    0x00, 0x00, 0x00, 0x00, 0x04, 0x00, 0x04, 0x00, 0x00, 0x00, 0x00, 0x08, 0x00, 0x02, 0x00, 0x00,
    0x00, 0x00, 0x00, 0x01, 0x00, 0x00, 0x03, 0x20, 0xFC, 0xE0, 0x00, 0x64, 0x04, 0x00, 0x00, 0x00,
    0x00, 0x00, 0x04, 0x00, 0x00, 0x01, 0x00, 0x00, 0x00, 0x00, 0x00, 0x00, 0x00, 0x00, 0x00, 0x00,
    0x00, 0x00, 0x00, 0x00, 0x00, 0x01, 0x00, 0x00, 0x00, 0x00, 0x00, 0x00, 0x00, 0x00, 0x00, 0x00,
    0x00, 0x00, 0x00, 0x00, 0x00, 0x00, 0x00, 0x00, 0x00, 0x00, 0x00, 0x00, 0x00, 0x00, 0x00, 0x00,
    0x00, 0x00, 0x00, 0x00, 0x00, 0x00, 0x00, 0x00, 0x00, 0x00, 0x00, 0x00, 0x00, 0x00, 0x00, 0x00,
    0x00, 0x00, 0x00, 0x00, 0x00, 0x00, 0x00, 0x00, 0x00, 0x00, 0x00, 0x00, 0x00, 0x00, 0x00, 0x00,
    0x00, 0x00, 0x00, 0x00, 0x00, 0x00, 0x00, 0x00, 0x00, 0x00, 0x00, 0x00, 0x00, 0x00, 0x00, 0x00,
    0x00, 0x00, 0x00, 0x00, 0x00, 0x00, 0x00, 0x00, 0x00, 0x00, 0x00, 0x00, 0x00, 0x00, 0x00, 0x00,
];

/// The packaged font file.
pub fn include_fira_code_ttf() -> (data: [u8; 256])
    ensures
        data@ == TTF_DATA@,
{
    TTF_DATA
}

/// A glyph drawn at one size.
#[derive(Clone, Copy)]
pub struct GlyphCacheEntry {
    pub bitmap: [u8; 1024],
    pub width: u8,
    pub height: u8,
    pub bearing_x: i8,
    pub bearing_y: i8,
    pub advance: u8,
    pub valid: bool,
}

/// The glyphs drawn so far, by character code.
pub struct GlyphCache {
    pub entries: [GlyphCacheEntry; 256],
}

/// A bitmap with the first `k` edges of a closed outline drawn into it. Each
/// edge runs from a point to the one after it, the last one back to the first.
pub open spec fn edges_drawn(
    bitmap: Seq<u8>,
    points: Seq<(i32, i32)>,
    k: int,
    width: int,
) -> Seq<u8>
    decreases k,
{
    if k <= 0 {
        bitmap
    } else {
        let p = points[k - 1];
        let q = points[k % points.len() as int];
        drawn(
            edges_drawn(bitmap, points, k - 1, width),
            Line { x1: p.0 as int, y1: p.1 as int, x2: q.0 as int, y2: q.1 as int },
            width,
        )
    }
}

/// A bitmap with the first `k` outlines drawn into it.
pub open spec fn contours_drawn(
    bitmap: Seq<u8>,
    contours: Seq<Vec<(i32, i32)>>,
    k: int,
    width: int,
) -> Seq<u8>
    decreases k,
{
    if k <= 0 {
        bitmap
    } else {
        edges_drawn(
            contours_drawn(bitmap, contours, k - 1, width),
            contours[k - 1]@,
            contours[k - 1]@.len() as int,
            width,
        )
    }
}

/// Draws a closed outline.
pub fn draw_contour(points: &Vec<(i32, i32)>, bitmap: &mut [u8; 1024], width: usize)
    requires
        width <= 0x7fff_ffff,
    ensures
        final(bitmap)@ == edges_drawn(
            old(bitmap)@,
            points@,
            points@.len() as int,
            width as int,
        ),
{
    let ghost before = bitmap@;
    let n = points.len();
    let mut i: usize = 0;
    while i < n
        invariant
            i <= n,
            n == points@.len(),
            width <= 0x7fff_ffff,
            bitmap@ == edges_drawn(before, points@, i as int, width as int),
        decreases n - i,
    {
        let next: usize = if i + 1 < n { i + 1 } else { 0 };
        proof {
            if i + 1 == n {
                assert((i + 1) % n as int == 0) by (nonlinear_arith)
                    requires
                        i + 1 == n,
                        n > 0,
                ;
            } else {
                vstd::arithmetic::div_mod::lemma_small_mod((i + 1) as nat, n as nat);
            }
        }
        let p = points[i];
        let q = points[next];
        draw_line(p.0, p.1, q.0, q.1, bitmap, width);
        i = i + 1;
    }
}

/// The bitmap of a glyph with the given outlines.
pub open spec fn glyph_bitmap(contours: Seq<Vec<(i32, i32)>>) -> Seq<u8> {
    contours_drawn(Seq::new(1024, |i: int| 0u8), contours, contours.len() as int, 16)
}

/// The glyph that the outlines give: sixteen pixels wide, twenty high.
pub open spec fn is_glyph_of(e: GlyphCacheEntry, contours: Seq<Vec<(i32, i32)>>) -> bool {
    &&& e.bitmap@ == glyph_bitmap(contours)
    &&& e.width == 16
    &&& e.height == 20
    &&& e.bearing_x == 1
    &&& e.bearing_y == 16
    &&& e.advance == 16
    &&& e.valid
}

/// Draws a glyph from its outlines, given in pixels.
pub fn rasterize_glyph(contours: &Vec<Vec<(i32, i32)>>) -> (entry: GlyphCacheEntry)
    ensures
        is_glyph_of(entry, contours@),
{
    let mut bitmap: [u8; 1024] = [0u8; 1024];
    let ghost blank = Seq::new(1024, |i: int| 0u8);
    assert(bitmap@ =~= blank);
    let mut i: usize = 0;
    while i < contours.len()
        invariant
            i <= contours@.len(),
            bitmap@ == contours_drawn(blank, contours@, i as int, 16),
        decreases contours@.len() - i,
    {
        draw_contour(&contours[i], &mut bitmap, 16);
        i = i + 1;
    }
    GlyphCacheEntry {
        bitmap,
        width: 16,
        height: 20,
        bearing_x: 1,
        bearing_y: 16,
        advance: 16,
        valid: true,
    }
}

/// A place of the cache that holds no glyph yet.
pub open spec fn is_blank(e: GlyphCacheEntry) -> bool {
    &&& e.bitmap@ == Seq::new(1024, |k: int| 0u8)
    &&& e.width == 0
    &&& e.height == 0
    &&& e.bearing_x == 0
    &&& e.bearing_y == 0
    &&& e.advance == 0
    &&& !e.valid
}

impl GlyphCache {
    /// A cache without glyphs.
    pub fn new() -> (c: GlyphCache)
        ensures
            forall|i: int| 0 <= i < 256 ==> is_blank(#[trigger] c.entries@[i]),
    {
        let c = GlyphCache {
            entries: [GlyphCacheEntry {
                bitmap: [0u8; 1024],
                width: 0,
                height: 0,
                bearing_x: 0,
                bearing_y: 0,
                advance: 0,
                valid: false,
            };256],
        };
        assert forall|i: int| 0 <= i < 256 implies is_blank(#[trigger] c.entries@[i]) by {
            assert(c.entries@[i].bitmap@ =~= Seq::new(1024, |k: int| 0u8));
        }
        c
    }

    /// Forgets every glyph, as a change of size asks for.
    pub fn clear(&mut self)
        ensures
            forall|i: int|
                0 <= i < 256 ==> #[trigger] final(self).entries@[i] == (GlyphCacheEntry {
                    valid: false,
                    ..old(self).entries@[i]
                }),
    {
        let ghost before = self.entries@;
        let mut i: usize = 0;
        while i < 256
            invariant
                i <= 256,
                before.len() == 256,
                forall|k: int|
                    0 <= k < 256 ==> #[trigger] self.entries@[k] == (if k < i {
                        GlyphCacheEntry { valid: false, ..before[k] }
                    } else {
                        before[k]
                    }),
            decreases 256 - i,
        {
            let entry = self.entries[i];
            self.entries[i] = GlyphCacheEntry { valid: false, ..entry };
            i = i + 1;
        }
    }

    /// The glyph of a character: the one at hand, or one drawn from its
    /// outlines and kept. Only the first 256 codes have glyphs.
    pub fn get_glyph(&mut self, ch: char, contours: &Vec<Vec<(i32, i32)>>) -> (r: Option<
        GlyphCacheEntry,
    >)
        ensures
            r is Some <==> (ch as u32) < 256,
            r matches Some(e) ==> {
                &&& old(self).entries@[ch as u32 as int].valid ==> e
                    == old(self).entries@[ch as u32 as int]
                &&& !old(self).entries@[ch as u32 as int].valid ==> is_glyph_of(e, contours@)
                &&& final(self).entries@ == old(self).entries@.update(ch as u32 as int, e)
            },
            r is None ==> final(self).entries@ == old(self).entries@,
    {
        let code = ch as u32;
        if code >= 256 {
            return None;
        }
        let at: usize = code as usize;
        let ghost before = self.entries@;
        let held = self.entries[at];
        if held.valid {
            assert(self.entries@ =~= before.update(at as int, held));
            return Some(held);
        }
        let entry = rasterize_glyph(contours);
        self.entries[at] = entry;
        assert(self.entries@ =~= before.update(at as int, entry));
        Some(entry)
    }
}

} // verus!
