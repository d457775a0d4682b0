//! The framebuffer text console.
//!
//! The console draws into a write-back copy of the surface, one `u32` per
//! pixel, and remembers the bounding box of what it has changed. A flush copies
//! that box to the visible surface and clears it. Text arrives a byte at a time
//! and goes through a small terminal emulator: UTF-8, control characters and
//! the escape sequences that line editors use.
use crate::bo::block_bytes;
use crate::bytes::{read_u32, u32_at};
use crate::font::{fallback_byte, fallback_row, get_fira_code_char, lit};
use crate::grid::{lemma_cells_fit, lemma_row_fits, lemma_span, lemma_word};
use crate::message::{padded, Message};
use crate::pages::{is_order_for, order_for_bytes, pages_for};
use crate::screen::{
    basic, bright, capped, level, mapped, max, min, number, numbers, scan_numbers, sgr,
    surface_ok, xterm256, EscState, PixelBox, Screen, MAX_NUMBERS, MAX_PARAMS, SCROLL_ROWS, WHITE,
};
use crate::DriverError;
use vstd::arithmetic::div_mod::lemma_fundamental_div_mod;
use vstd::prelude::*;

verus! {

/// The console: its surface, its cursor and the state of its parser.
pub struct Framebuffer {
    pixels: Vec<u32>,
    ready: bool,
    width: usize,
    height: usize,
    pitch: usize,
    cursor_x: usize,
    cursor_y: usize,
    char_width: usize,
    char_height: usize,
    esc: EscState,
    params: [u8; 32],
    params_len: usize,
    fg: u32,
    saved_cursor: (usize, usize),
    dirty: Option<(usize, usize, usize, usize)>,
    utf8: (usize, u32),
}

/// A dirty box as a model value.
pub open spec fn boxed(area: Option<(usize, usize, usize, usize)>) -> Option<PixelBox> {
    match area {
        Some((x0, y0, x1, y1)) => Some(
            PixelBox { x0: x0 as int, y0: y0 as int, x1: x1 as int, y1: y1 as int },
        ),
        None => None,
    }
}

impl View for Framebuffer {
    type V = Screen;

    closed spec fn view(&self) -> Screen {
        Screen {
            pixels: self.pixels@,
            ready: self.ready,
            width: self.width as int,
            height: self.height as int,
            pitch: self.pitch as int,
            cursor_x: self.cursor_x as int,
            cursor_y: self.cursor_y as int,
            char_width: self.char_width as int,
            char_height: self.char_height as int,
            esc: self.esc,
            params: self.params@.take(self.params_len as int),
            fg: self.fg,
            saved: (self.saved_cursor.0 as int, self.saved_cursor.1 as int),
            dirty: boxed(self.dirty),
            utf8: (self.utf8.0 as int, self.utf8.1),
        }
    }
}

/// The surface with the first `upto` pixels of one glyph row drawn.
spec fn row_inked(s: Screen, x: int, y: int, bits: u8, upto: int, color: u32) -> Seq<u32> {
    Seq::new(
        s.pixels.len(),
        |i: int|
            {
                let gx = i % s.stride() - x;
                if i / s.stride() == y && i % s.stride() < s.width && 0 <= gx < upto && lit(
                    bits,
                    gx,
                ) {
                    color
                } else {
                    s.pixels[i]
                }
            },
    )
}

/// Sets a run of words to one value.
fn fill_words(words: &mut Vec<u32>, from: usize, to: usize, color: u32)
    requires
        from <= to <= old(words)@.len(),
    ensures
        final(words)@ == Seq::new(
            old(words)@.len(),
            |i: int|
                if from <= i < to {
                    color
                } else {
                    old(words)@[i]
                },
        ),
{
    let ghost before = words@;
    let mut at: usize = from;
    while at < to
        invariant
            from <= at <= to <= words@.len(),
            words@ == Seq::new(
                before.len(),
                |i: int|
                    if from <= i < at {
                        color
                    } else {
                        before[i]
                    },
            ),
        decreases to - at,
    {
        words.set(at, color);
        at = at + 1;
        assert(words@ =~= Seq::new(
            before.len(),
            |i: int|
                if from <= i < at {
                    color
                } else {
                    before[i]
                },
        ));
    }
}

/// The smaller of a sum and a limit.
fn clip(a: usize, b: usize, limit: usize) -> (r: usize)
    ensures
        r == min(a + b, limit as int),
{
    let sum = a.saturating_add(b);
    if sum < limit {
        sum
    } else {
        limit
    }
}

/// The numbers of a control sequence as model values.
spec fn listed(v: Seq<Option<usize>>) -> Seq<Option<int>> {
    v.map_values(
        |n: Option<usize>|
            match n {
                Some(k) => Some(k as int),
                None => None,
            },
    )
}

/// A number with one more decimal digit, at most the largest.
fn more_digits(value: usize, digit: usize) -> (r: usize)
    requires
        digit <= 9,
    ensures
        r == capped(value * 10 + digit),
{
    match value.checked_mul(10) {
        Some(tens) => tens.saturating_add(digit),
        None => usize::MAX,
    }
}

/// Reads the numbers of a control sequence.
fn parse_numbers(params: &[u8]) -> (nums: Vec<Option<usize>>)
    ensures
        listed(nums@) == numbers(params@),
        1 <= nums@.len() <= MAX_NUMBERS,
{
    let mut nums: Vec<Option<usize>> = Vec::new();
    let mut cur: Option<usize> = None;
    let mut at: usize = 0;
    let len = params.len();
    assert(listed(nums@) =~= Seq::empty());
    while at < len
        invariant
            at <= len == params@.len(),
            nums@.len() <= MAX_NUMBERS,
            scan_numbers(params@.take(at as int)) == (
                listed(nums@),
                match cur {
                    Some(k) => Some(k as int),
                    None => None,
                },
            ),
        decreases len - at,
    {
        let b = params[at];
        let ghost prefix = params@.take(at + 1);
        let ghost before = nums@;
        assert(prefix.drop_last() =~= params@.take(at as int));
        assert(prefix.last() == b);
        if b >= 0x30 && b <= 0x39 {
            let so_far = match cur {
                Some(k) => k,
                None => 0,
            };
            cur = Some(more_digits(so_far, (b - 0x30) as usize));
        } else if b == 0x3b {
            if nums.len() < MAX_NUMBERS {
                nums.push(cur);
                assert(listed(nums@) =~= listed(before).push(
                    match cur {
                        Some(k) => Some(k as int),
                        None => None,
                    },
                ));
            }
            cur = None;
        }
        at = at + 1;
    }
    assert(params@.take(at as int) =~= params@);
    let ghost before = nums@;
    if nums.len() < MAX_NUMBERS {
        nums.push(cur);
        assert(listed(nums@) =~= listed(before).push(
            match cur {
                Some(k) => Some(k as int),
                None => None,
            },
        ));
    }
    nums
}

/// Number `i` of a control sequence, or the default.
fn pick(nums: &Vec<Option<usize>>, i: usize, default: usize) -> (n: usize)
    ensures
        n == number(listed(nums@), i as int, default as int),
{
    if i < nums.len() {
        match nums[i] {
            Some(n) => n,
            None => default,
        }
    } else {
        default
    }
}

fn basic_color(n: usize) -> (c: u32)
    ensures
        c == basic(n as int),
{
    match n {
        0 => 0x000000,
        1 => 0xCD0000,
        2 => 0x00CD00,
        3 => 0xCDCD00,
        4 => 0x0000EE,
        5 => 0xCD00CD,
        6 => 0x00CDCD,
        _ => 0xE5E5E5,
    }
}

fn bright_color(n: usize) -> (c: u32)
    ensures
        c == bright(n as int),
{
    match n {
        0 => 0x7F7F7F,
        1 => 0xFF0000,
        2 => 0x00FF00,
        3 => 0xFFFF00,
        4 => 0x5C5CFF,
        5 => 0xFF00FF,
        6 => 0x00FFFF,
        _ => 0xFFFFFF,
    }
}

fn cube_level(n: usize) -> (c: u32)
    requires
        n < 6,
    ensures
        c == level(n as int),
{
    match n {
        0 => 0,
        1 => 95,
        2 => 135,
        3 => 175,
        4 => 215,
        _ => 255,
    }
}

/// The colour of a number of the 256-colour palette.
fn palette_color(n: usize) -> (c: u32)
    ensures
        c == xterm256(n as int),
{
    if n < 8 {
        basic_color(n)
    } else if n < 16 {
        bright_color(n - 8)
    } else if n < 232 {
        let i: usize = n - 16;
        (cube_level(i / 36) << 16) | (cube_level((i / 6) % 6) << 8) | cube_level(i % 6)
    } else if n < 256 {
        let v: u32 = 8 + (n - 232) as u32 * 10;
        (v << 16) | (v << 8) | v
    } else {
        WHITE
    }
}

/// The foreground colour after a list of attributes.
fn apply_sgr(nums: &Vec<Option<usize>>, start: u32) -> (fg: u32)
    requires
        nums@.len() <= MAX_NUMBERS,
    ensures
        fg == sgr(listed(nums@), 0, start),
{
    let mut fg: u32 = start;
    let mut i: usize = 0;
    while i < nums.len()
        invariant
            i <= nums@.len() + 4,
            nums@.len() <= MAX_NUMBERS,
            sgr(listed(nums@), i as int, fg) == sgr(listed(nums@), 0, start),
        decreases nums@.len() + 4 - i,
    {
        let n = pick(nums, i, 0);
        if n == 0 || n == 39 {
            fg = WHITE;
        } else if n >= 30 && n <= 37 {
            fg = basic_color(n - 30);
        } else if n >= 90 && n <= 97 {
            fg = bright_color(n - 90);
        } else if n == 38 {
            let kind = pick(nums, i + 1, 0);
            if kind == 5 {
                if i + 2 < nums.len() {
                    fg = palette_color(pick(nums, i + 2, 0));
                }
                i = i + 2;
            } else if kind == 2 {
                let r = pick(nums, i + 2, 0) as u32;
                let g = pick(nums, i + 3, 0) as u32;
                let b = pick(nums, i + 4, 0) as u32;
                fg = (r << 16) | (g << 8) | b;
                i = i + 4;
            }
        }
        i = i + 1;
    }
    fg
}

/// The character drawn for a code point outside ASCII.
fn map_unicode_to_ascii(unicode: u32) -> (c: char)
    ensures
        c == mapped(unicode),
{
    match unicode {
        0x2550 => '\u{1}',
        0x2551 => '\u{2}',
        0x2554 => '\u{3}',
        0x2557 => '\u{4}',
        0x255A => '\u{5}',
        0x255D => '\u{6}',
        0x2569 => '\u{7}',
        0x2566 => '\u{8}',
        0x2560 => '\u{9}',
        0x2563 => '\u{a}',
        0x2588 => '\u{b}',
        _ => '?',
    }
}

impl Framebuffer {
    /// The console's invariant.
    pub closed spec fn inv(&self) -> bool {
        &&& self.params_len <= MAX_PARAMS
        &&& self@.wf()
    }

    /// The invariant bounds the console's model.
    pub proof fn lemma_inv(&self)
        requires
            self.inv(),
        ensures
            self@.wf(),
    {
    }

    /// A console without a surface: nothing is drawn until one is attached.
    pub fn new() -> (fb: Framebuffer)
        ensures
            fb.inv(),
            fb@ == Screen::fresh(),
    {
        let fb = Framebuffer {
            pixels: Vec::new(),
            ready: false,
            width: 0,
            height: 0,
            pitch: 0,
            cursor_x: 0,
            cursor_y: 0,
            char_width: 12,
            char_height: 20,
            esc: EscState::Ground,
            params: [0u8; 32],
            params_len: 0,
            fg: WHITE,
            saved_cursor: (0, 0),
            dirty: None,
            utf8: (0, 0),
        };
        assert(fb@.params =~= Seq::empty());
        fb
    }

    /// Grows the dirty box by a rectangle.
    fn mark_dirty(&mut self, x: usize, y: usize, w: usize, h: usize)
        requires
            old(self).inv(),
            x + w <= usize::MAX,
            y + h <= usize::MAX,
        ensures
            final(self).inv(),
            final(self)@ == (Screen {
                dirty: old(self)@.dirtied(
                    PixelBox { x0: x as int, y0: y as int, x1: x + w, y1: y + h },
                ),
                ..old(self)@
            }),
    {
        let x1 = x + w;
        let y1 = y + h;
        self.dirty = match self.dirty {
            Some((dx0, dy0, dx1, dy1)) => Some(
                (
                    if dx0 <= x { dx0 } else { x },
                    if dy0 <= y { dy0 } else { y },
                    if dx1 >= x1 { dx1 } else { x1 },
                    if dy1 >= y1 { dy1 } else { y1 },
                ),
            ),
            None => Some((x, y, x1, y1)),
        };
    }

    /// Sets one pixel, where it is on the screen.
    pub fn set_pixel(&mut self, x: usize, y: usize, color: u32)
        requires
            old(self).inv(),
        ensures
            final(self).inv(),
            final(self)@ == old(self)@.set_pixel(x as int, y as int, color),
    {
        if x < self.width && y < self.height {
            let stride: usize = self.pitch / 4;
            proof {
                lemma_row_fits(y as int, self.height as int, stride as int);
            }
            let offset: usize = y * stride + x;
            self.pixels.set(offset, color);
            self.mark_dirty(x, y, 1, 1);
        }
    }

    /// Fills a rectangle, as far as it is on the screen.
    fn fill_rect(&mut self, x: usize, y: usize, w: usize, h: usize, color: u32)
        requires
            old(self).inv(),
        ensures
            final(self).inv(),
            final(self)@ == old(self)@.fill_rect(x as int, y as int, w as int, h as int, color),
    {
        if !self.ready {
            return ;
        }
        let x1 = clip(x, w, self.width);
        let y1 = clip(y, h, self.height);
        if x >= x1 || y >= y1 {
            return ;
        }
        let stride: usize = self.pitch / 4;
        let ghost before = *self;
        let ghost area = PixelBox { x0: x as int, y0: y as int, x1: x1 as int, y1: y1 as int };
        let mut row: usize = y;
        assert(self@.pixels =~= before@.painted(PixelBox { y1: row as int, ..area }, color));
        while row < y1
            invariant
                self.inv(),
                before.inv(),
                y <= row <= y1 <= self.height,
                x < x1 <= self.width,
                stride == self.pitch / 4,
                stride == before@.stride(),
                area == (PixelBox { x0: x as int, y0: y as int, x1: x1 as int, y1: y1 as int }),
                self@ == (Screen {
                    pixels: before@.painted(PixelBox { y1: row as int, ..area }, color),
                    ..before@
                }),
            decreases y1 - row,
        {
            proof {
                lemma_row_fits(row as int, self.height as int, stride as int);
            }
            let base: usize = row * stride;
            fill_words(&mut self.pixels, base + x, base + x1, color);
            proof {
                let next = before@.painted(PixelBox { y1: row + 1, ..area }, color);
                assert forall|i: int| 0 <= i < next.len() implies self.pixels@[i] == next[i] by {
                    lemma_span(i, row as int, x as int, x1 as int, stride as int);
                }
                assert(self.pixels@ =~= next);
            }
            row = row + 1;
        }
        self.mark_dirty(x, y, x1 - x, y1 - y);
    }

    /// Draws the lit pixels of one glyph row.
    fn ink_row(&mut self, x: usize, y: usize, bits: u8, color: u32)
        requires
            old(self).inv(),
        ensures
            final(self).inv(),
            final(self)@ == (Screen { pixels: row_inked(old(self)@, x as int, y as int, bits, 8, color), ..old(self)@ }),
    {
        let ghost before = *self;
        let mut gx: u8 = 0;
        assert(self@.pixels =~= row_inked(before@, x as int, y as int, bits, 0, color));
        while gx < 8
            invariant
                gx <= 8,
                self.inv(),
                before.inv(),
                self@ == (Screen {
                    pixels: row_inked(before@, x as int, y as int, bits, gx as int, color),
                    ..before@
                }),
            decreases 8 - gx,
        {
            let px = x.saturating_add(gx as usize);
            if bits & (1u8 << (7 - gx)) != 0 && px < self.width && y < self.height {
                let stride: usize = self.pitch / 4;
                proof {
                    lemma_row_fits(y as int, self.height as int, stride as int);
                }
                let offset: usize = y * stride + px;
                self.pixels.set(offset, color);
            }
            proof {
                let next = row_inked(before@, x as int, y as int, bits, gx + 1, color);
                let stride = before@.stride();
                assert forall|i: int| 0 <= i < next.len() implies self.pixels@[i] == next[i] by {
                    if stride > 0 {
                        lemma_fundamental_div_mod(i, stride);
                        assert(stride * (i / stride) == (i / stride) * stride) by (nonlinear_arith);
                        if px < before.width {
                            if i == y * stride + px {
                                lemma_word(i, y as int, px as int, stride);
                            }
                        }
                        if i / stride >= before.height {
                            assert((i / stride) * stride >= before.height * stride)
                                by (nonlinear_arith)
                                requires
                                    i / stride >= before.height,
                                    stride > 0,
                            ;
                        }
                    }
                }
                assert(self.pixels@ =~= next);
            }
            gx = gx + 1;
        }
    }

    /// Draws the lit pixels of the first rows of a glyph.
    fn ink(&mut self, x: usize, y: usize, glyph: &[u8; 16], rows: usize, color: u32)
        requires
            old(self).inv(),
            rows <= 16,
        ensures
            final(self).inv(),
            final(self)@ == (Screen {
                pixels: old(self)@.inked(x as int, y as int, glyph@.take(rows as int), color),
                ..old(self)@
            }),
    {
        let ghost before = *self;
        let mut gy: usize = 0;
        assert(self@.pixels =~= before@.inked(x as int, y as int, glyph@.take(0), color));
        while gy < rows
            invariant
                gy <= rows <= 16,
                self.inv(),
                before.inv(),
                self@ == (Screen {
                    pixels: before@.inked(x as int, y as int, glyph@.take(gy as int), color),
                    ..before@
                }),
            decreases rows - gy,
        {
            self.ink_row(x, y.saturating_add(gy), glyph[gy], color);
            proof {
                let next = before@.inked(x as int, y as int, glyph@.take(gy + 1), color);
                let stride = before@.stride();
                assert forall|i: int| 0 <= i < next.len() implies self.pixels@[i] == next[i] by {
                    if stride > 0 {
                        lemma_fundamental_div_mod(i, stride);
                        assert(stride * (i / stride) == (i / stride) * stride) by (nonlinear_arith);
                        if i / stride >= before.height {
                            assert((i / stride) * stride >= before.height * stride)
                                by (nonlinear_arith)
                                requires
                                    i / stride >= before.height,
                                    stride > 0,
                            ;
                        }
                    }
                }
                assert(self.pixels@ =~= next);
            }
            gy = gy + 1;
        }
    }

    /// Draws a character in the fallback font, where that has its code.
    fn draw_char(&mut self, x: usize, y: usize, c: u8, color: u32)
        requires
            old(self).inv(),
        ensures
            final(self).inv(),
            final(self)@ == (Screen {
                pixels: if c < 128 {
                    old(self)@.inked(
                        x as int,
                        y as int,
                        Seq::new(8, |row: int| fallback_row(c as int, row)),
                        color,
                    )
                } else {
                    old(self)@.pixels
                },
                ..old(self)@
            }),
    {
        if c >= 128 {
            return ;
        }
        let mut glyph: [u8; 16] = [0u8; 16];
        let mut row: usize = 0;
        while row < 8
            invariant
                row <= 8,
                c < 128,
                forall|k: int| 0 <= k < row ==> #[trigger] glyph@[k] == fallback_row(c as int, k),
            decreases 8 - row,
        {
            glyph[row] = fallback_byte(c as usize, row);
            row = row + 1;
        }
        assert(glyph@.take(8) =~= Seq::new(8, |row: int| fallback_row(c as int, row)));
        self.ink(x, y, &glyph, 8, color);
    }

    /// Clears a character cell and draws a character into it.
    fn draw_char_vector(&mut self, x: usize, y: usize, c: char, color: u32)
        requires
            old(self).inv(),
        ensures
            final(self).inv(),
            final(self)@ == old(self)@.draw_char(x as int, y as int, c, color),
    {
        let cw = self.char_width;
        let ch = self.char_height;
        self.fill_rect(x, y, cw, ch, 0);
        match get_fira_code_char(c) {
            Some(glyph) => {
                assert(glyph@.take(16) =~= Screen::glyph(c));
                self.ink(x, y, &glyph, 16, color);
            },
            None => {
                let ghost blank = self@;
                let low: u8 = (c as u32 % 256) as u8;
                self.draw_char(x, y, low, color);
                assert(Screen::glyph(c) =~= if low < 128 {
                    Seq::new(8, |row: int| fallback_row(low as int, row))
                } else {
                    Seq::empty()
                });
                assert(low >= 128 ==> blank.pixels =~= blank.inked(
                    x as int,
                    y as int,
                    Seq::empty(),
                    color,
                ));
            },
        }
    }

    /// Paints the whole surface in one colour and homes the cursor.
    pub fn clear(&mut self, color: u32)
        requires
            old(self).inv(),
        ensures
            final(self).inv(),
            final(self)@ == old(self)@.clear(color),
    {
        if !self.ready {
            return ;
        }
        let ghost before = *self;
        let total = self.pixels.len();
        fill_words(&mut self.pixels, 0, total, color);
        assert(self.pixels@ =~= Seq::new(before@.pixels.len(), |i: int| color));
        self.cursor_x = 0;
        self.cursor_y = 0;
        let w = self.width;
        let h = self.height;
        self.mark_dirty(0, 0, w, h);
    }

    /// Pixel rows that one scroll advances by.
    fn scroll_shift_px(&self, char_h: usize) -> (shift: usize)
        requires
            self.inv(),
        ensures
            shift == self@.scroll_shift(char_h as int),
            char_h < self@.height ==> shift <= self@.height,
    {
        if char_h == 0 || self.height <= char_h {
            return 0;
        }
        let rows = self.height / char_h;
        let usable: usize = if rows >= 2 { rows - 1 } else { 1 };
        let advance: usize = if SCROLL_ROWS <= usable { SCROLL_ROWS } else { usable };
        proof {
            lemma_fundamental_div_mod(self.height as int, char_h as int);
            assert(rows >= 1) by (nonlinear_arith)
                requires
                    rows == self.height as int / char_h as int,
                    self.height > char_h,
                    char_h > 0,
            ;
            assert(char_h * advance <= char_h * rows) by (nonlinear_arith)
                requires
                    advance <= rows,
            ;
        }
        char_h * advance
    }

    /// Moves the surface up by some pixel rows, blanking what that exposes.
    fn scroll_px(&mut self, shift_px: usize)
        requires
            old(self).inv(),
        ensures
            final(self).inv(),
            final(self)@ == old(self)@.scroll(shift_px as int),
    {
        if !self.ready || shift_px == 0 || shift_px >= self.height {
            return ;
        }
        let ghost before = *self;
        let stride: usize = self.pitch / 4;
        let kept = self.height - shift_px;
        proof {
            lemma_row_fits(shift_px as int, self.height as int, stride as int);
            assert(kept * stride + shift_px * stride == self.height * stride) by (nonlinear_arith)
                requires
                    kept + shift_px == self.height,
            ;
        }
        let skip: usize = shift_px * stride;
        let end: usize = kept * stride;
        let total = self.pixels.len();
        let mut at: usize = 0;
        while at < end
            invariant
                at <= end,
                end + skip == total,
                total == before.pixels@.len(),
                self.pixels@ == Seq::new(
                    before.pixels@.len(),
                    |i: int|
                        if i < at {
                            before.pixels@[i + skip]
                        } else {
                            before.pixels@[i]
                        },
                ),
                *self == (Framebuffer { pixels: self.pixels, ..before }),
            decreases end - at,
        {
            let word = self.pixels[at + skip];
            self.pixels.set(at, word);
            at = at + 1;
            assert(self.pixels@ =~= Seq::new(
                before.pixels@.len(),
                |i: int|
                    if i < at {
                        before.pixels@[i + skip]
                    } else {
                        before.pixels@[i]
                    },
            ));
        }
        fill_words(&mut self.pixels, end, total, 0);
        assert(self.pixels@ =~= before@.scrolled_up(shift_px as int));
        self.cursor_y = self.cursor_y.saturating_sub(shift_px);
        let w = self.width;
        let h = self.height;
        self.mark_dirty(0, 0, w, h);
    }

    /// Moves the surface down by some pixel rows, blanking what that exposes.
    fn scroll_down_px(&mut self, shift_px: usize)
        requires
            old(self).inv(),
        ensures
            final(self).inv(),
            final(self)@ == old(self)@.scroll_down(shift_px as int),
    {
        if !self.ready || shift_px == 0 || shift_px >= self.height {
            return ;
        }
        let ghost before = *self;
        let stride: usize = self.pitch / 4;
        proof {
            lemma_row_fits(shift_px as int, self.height as int, stride as int);
        }
        let skip: usize = shift_px * stride;
        let mut at: usize = self.pixels.len();
        while at > skip
            invariant
                skip <= at <= before.pixels@.len(),
                self.pixels@ == Seq::new(
                    before.pixels@.len(),
                    |i: int|
                        if i >= at {
                            before.pixels@[i - skip]
                        } else {
                            before.pixels@[i]
                        },
                ),
                *self == (Framebuffer { pixels: self.pixels, ..before }),
            decreases at,
        {
            at = at - 1;
            let word = self.pixels[at - skip];
            self.pixels.set(at, word);
            assert(self.pixels@ =~= Seq::new(
                before.pixels@.len(),
                |i: int|
                    if i >= at {
                        before.pixels@[i - skip]
                    } else {
                        before.pixels@[i]
                    },
            ));
        }
        fill_words(&mut self.pixels, 0, skip, 0);
        assert(self.pixels@ =~= before@.scrolled_down(shift_px as int));
        let w = self.width;
        let h = self.height;
        self.mark_dirty(0, 0, w, h);
    }

    /// Moves up one line, or the text down one row from the top row.
    fn reverse_index(&mut self)
        requires
            old(self).inv(),
        ensures
            final(self).inv(),
            final(self)@ == old(self)@.reverse_index(),
    {
        let ch = self.char_height;
        if self.cursor_y >= ch {
            self.cursor_y = self.cursor_y - ch;
        } else {
            self.scroll_down_px(ch);
        }
    }

    fn cols(&self) -> (n: usize)
        requires
            self.inv(),
        ensures
            n == self@.cols(),
    {
        self.width / self.char_width
    }

    fn rows(&self) -> (n: usize)
        requires
            self.inv(),
        ensures
            n == self@.rows(),
    {
        self.height / self.char_height
    }

    fn col(&self) -> (n: usize)
        requires
            self.inv(),
        ensures
            n == self@.col(),
    {
        self.cursor_x / self.char_width
    }

    fn row(&self) -> (n: usize)
        requires
            self.inv(),
        ensures
            n == self@.row(),
    {
        self.cursor_y / self.char_height
    }

    /// Puts the cursor on a cell.
    fn set_cell(&mut self, col: usize, row: usize)
        requires
            old(self).inv(),
            col * old(self)@.char_width <= usize::MAX,
            row * old(self)@.char_height <= usize::MAX,
        ensures
            final(self).inv(),
            final(self)@ == old(self)@.set_cell(col as int, row as int),
    {
        self.cursor_x = col * self.char_width;
        self.cursor_y = row * self.char_height;
    }

    /// Erases the cell before the cursor and moves onto it.
    fn handle_backspace(&mut self)
        requires
            old(self).inv(),
        ensures
            final(self).inv(),
            final(self)@ == old(self)@.backspace(),
    {
        let cw = self.char_width;
        let ch = self.char_height;
        if self.cursor_x >= cw {
            self.cursor_x = self.cursor_x - cw;
        } else if self.cursor_y >= ch {
            let cols = self.cols();
            proof {
                lemma_cells_fit(self.width as int, cw as int, max(cols - 1, 0));
            }
            self.cursor_y = self.cursor_y - ch;
            self.cursor_x = if cols > 0 { (cols - 1) * cw } else { 0 };
        } else {
            return ;
        }
        let x = self.cursor_x;
        let y = self.cursor_y;
        self.fill_rect(x, y, cw, ch, 0);
    }

    /// Erases part of the screen.
    fn erase_in_display(&mut self, mode: usize)
        requires
            old(self).inv(),
        ensures
            final(self).inv(),
            final(self)@ == old(self)@.erase_in_display(mode as int),
    {
        let w = self.width;
        let h = self.height;
        let ch = self.char_height;
        let x = self.cursor_x;
        let y = self.cursor_y;
        if mode == 0 {
            self.fill_rect(x, y, w - if x <= w { x } else { w }, ch, 0);
            let below = y.saturating_add(ch);
            self.fill_rect(0, below, w, h.saturating_sub(below), 0);
        } else if mode == 1 {
            self.fill_rect(0, 0, w, y, 0);
            self.fill_rect(0, y, x, ch, 0);
        } else {
            self.fill_rect(0, 0, w, h, 0);
        }
    }

    /// Erases part of the cursor's line.
    fn erase_in_line(&mut self, mode: usize)
        requires
            old(self).inv(),
        ensures
            final(self).inv(),
            final(self)@ == old(self)@.erase_in_line(mode as int),
    {
        let w = self.width;
        let ch = self.char_height;
        let x = self.cursor_x;
        let y = self.cursor_y;
        if mode == 0 {
            self.fill_rect(x, y, w - if x <= w { x } else { w }, ch, 0);
        } else if mode == 1 {
            self.fill_rect(0, y, x, ch, 0);
        } else {
            self.fill_rect(0, y, w, ch, 0);
        }
    }

    /// Carries out a control sequence, given its parameter bytes and its last
    /// byte.
    #[verifier::spinoff_prover]
    #[verifier::rlimit(60)]
    pub fn handle_csi(&mut self, params: &[u8], final_byte: u8)
        requires
            old(self).inv(),
        ensures
            final(self).inv(),
            final(self)@ == old(self)@.control(params@, final_byte),
    {
        let cols = self.cols();
        let rows = self.rows();
        if cols == 0 || rows == 0 {
            return ;
        }
        let nums = parse_numbers(params);
        let private = params.len() > 0 && params[0] == 0x3f;
        let mut col = self.col();
        let mut row = self.row();
        let one = pick(&nums, 0, 1);
        let down = clip(row, one, rows - 1);
        let up = row.saturating_sub(one);
        let to_row = clip(one.saturating_sub(1), 0, rows - 1);
        let to_col = clip(one.saturating_sub(1), 0, cols - 1);
        proof {
            lemma_cells_fit(self.cursor_x as int, self.char_width as int, col as int);
            lemma_cells_fit(self.cursor_y as int, self.char_height as int, row as int);
            lemma_cells_fit(self.cursor_y as int, self.char_height as int, up as int);
            lemma_cells_fit(self.height as int, self.char_height as int, down as int);
            lemma_cells_fit(self.height as int, self.char_height as int, to_row as int);
            lemma_cells_fit(self.width as int, self.char_width as int, to_col as int);
        }
        if !private {
            match final_byte {
                0x41 => row = up,
                0x42 => row = down,
                0x43 => {
                    col = clip(col, one, cols - 1);
                    proof {
                        lemma_cells_fit(self.width as int, self.char_width as int, col as int);
                    }
                },
                0x44 => {
                    let back = col.saturating_sub(one);
                    proof {
                        lemma_cells_fit(self.cursor_x as int, self.char_width as int, back as int);
                    }
                    col = back;
                },
                0x45 => {
                    row = down;
                    col = 0;
                },
                0x46 => {
                    row = up;
                    col = 0;
                },
                0x47 | 0x60 => col = to_col,
                0x64 => row = to_row,
                0x48 | 0x66 => {
                    row = to_row;
                    col = clip(pick(&nums, 1, 1).saturating_sub(1), 0, cols - 1);
                    proof {
                        lemma_cells_fit(self.width as int, self.char_width as int, col as int);
                    }
                },
                0x4a => self.erase_in_display(pick(&nums, 0, 0)),
                0x4b => self.erase_in_line(pick(&nums, 0, 0)),
                0x6d => {
                    self.fg = apply_sgr(&nums, self.fg);
                },
                0x73 => {
                    self.saved_cursor = (self.cursor_x, self.cursor_y);
                },
                0x75 => {
                    self.cursor_x = self.saved_cursor.0;
                    self.cursor_y = self.saved_cursor.1;
                    return ;
                },
                _ => {},
            }
        }
        self.set_cell(col, row);
    }

    /// Takes the byte after ESC.
    fn after_escape(&mut self, c: u8)
        requires
            old(self).inv(),
        ensures
            final(self).inv(),
            final(self)@ == old(self)@.escape(c),
    {
        match c {
            0x5b => {
                self.params_len = 0;
                self.esc = EscState::Csi;
                assert(self@.params =~= Seq::empty());
            },
            0x5d => self.esc = EscState::Osc,
            0x28 | 0x29 | 0x2a | 0x2b | 0x23 | 0x25 => self.esc = EscState::Discard1,
            0x37 => {
                self.saved_cursor = (self.cursor_x, self.cursor_y);
                self.esc = EscState::Ground;
            },
            0x38 => {
                self.cursor_x = self.saved_cursor.0;
                self.cursor_y = self.saved_cursor.1;
                self.esc = EscState::Ground;
            },
            0x4d => {
                self.esc = EscState::Ground;
                self.reverse_index();
            },
            _ => self.esc = EscState::Ground,
        }
    }

    /// Takes a byte of a control sequence. Bytes beyond the room for
    /// parameters are lost.
    fn collect_byte(&mut self, c: u8)
        requires
            old(self).inv(),
        ensures
            final(self).inv(),
            final(self)@ == old(self)@.collect(c),
    {
        if c >= 0x20 && c <= 0x3f {
            if self.params_len < MAX_PARAMS {
                let ghost before = self@;
                let at = self.params_len;
                self.params[at] = c;
                self.params_len = at + 1;
                assert(self@.params =~= before.params.push(c));
            }
        } else if c >= 0x40 && c <= 0x7e {
            self.esc = EscState::Ground;
            let all = self.params;
            let params = vstd::slice::slice_subrange(all.as_slice(), 0, self.params_len);
            assert(params@ =~= self@.params);
            self.handle_csi(params, c);
        } else {
            self.esc = EscState::Ground;
        }
    }

    /// Draws a character at the cursor and moves past it.
    fn write_char(&mut self, c: char)
        requires
            old(self).inv(),
        ensures
            final(self).inv(),
            final(self)@ == old(self)@.write_char(c),
    {
        let x = self.cursor_x;
        let y = self.cursor_y;
        let fg = self.fg;
        self.draw_char_vector(x, y, c, fg);
        self.cursor_x = self.cursor_x.saturating_add(self.char_width);
    }

    /// Takes a byte of text.
    fn put_text(&mut self, c: u8)
        requires
            old(self).inv(),
        ensures
            final(self).inv(),
            final(self)@ == old(self)@.text(c),
    {
        if c < 0x80 {
            self.utf8 = (0, 0);
            self.write_char(c as char);
        } else if c & 0xE0 == 0xC0 {
            self.utf8 = (1, (c & 0x1F) as u32);
        } else if c & 0xF0 == 0xE0 {
            self.utf8 = (2, (c & 0x0F) as u32);
        } else if c & 0xF8 == 0xF0 {
            self.utf8 = (3, (c & 0x07) as u32);
        } else if c & 0xC0 == 0x80 && self.utf8.0 > 0 {
            let code: u32 = (self.utf8.1 << 6) | (c & 0x3F) as u32;
            let left: usize = self.utf8.0 - 1;
            if left == 0 {
                self.utf8 = (0, 0);
                self.write_char(map_unicode_to_ascii(code));
            } else {
                self.utf8 = (left, code);
            }
        } else {
            self.utf8 = (0, 0);
        }
    }

    /// Moves the cursor to the start of the next line.
    fn next_line(&mut self)
        requires
            old(self).inv(),
        ensures
            final(self).inv(),
            final(self)@ == old(self)@.next_line(),
    {
        self.cursor_x = 0;
        self.cursor_y = self.cursor_y.saturating_add(self.char_height);
    }

    /// Makes room at the bottom for the cursor's line.
    fn scroll_vector(&mut self)
        requires
            old(self).inv(),
        ensures
            final(self).inv(),
            final(self)@ == old(self)@.settled(),
    {
        if self.height < self.char_height || self.cursor_y > self.height - self.char_height {
            let shift = self.scroll_shift_px(self.char_height);
            self.scroll_px(shift);
        }
    }

    /// Takes one byte of output: text, a control character or part of an
    /// escape sequence.
    pub fn putc(&mut self, c: u8)
        requires
            old(self).inv(),
        ensures
            final(self).inv(),
            final(self)@ == old(self)@.putc(c),
    {
        if !self.ready {
            return ;
        }
        if c == 0x1b {
            self.esc = if self.esc == EscState::Osc { EscState::OscEsc } else { EscState::Esc };
            self.params_len = 0;
            assert(self@.params =~= Seq::empty());
            return ;
        }
        match self.esc {
            EscState::Ground => {
                if c == 0x0a {
                    self.next_line();
                } else if c == 0x0d {
                    self.cursor_x = 0;
                } else if c == 0x08 {
                    self.handle_backspace();
                } else {
                    self.put_text(c);
                    if self.width < self.char_width || self.cursor_x > self.width
                        - self.char_width {
                        self.next_line();
                    }
                }
                self.scroll_vector();
            },
            EscState::Esc => self.after_escape(c),
            EscState::Csi => self.collect_byte(c),
            EscState::Osc => {
                if c == 0x07 {
                    self.esc = EscState::Ground;
                }
            },
            EscState::OscEsc => {
                self.esc = if c == 0x5c { EscState::Ground } else { EscState::Osc };
            },
            EscState::Discard1 => self.esc = EscState::Ground,
        }
    }

    /// Takes the changed rectangle, cut to the screen, and forgets it.
    pub fn take_dirty(&mut self) -> (rect: Option<(usize, usize, usize, usize)>)
        requires
            old(self).inv(),
        ensures
            final(self).inv(),
            final(self)@ == (Screen { dirty: None, ..old(self)@ }),
            match (rect, old(self)@.damage()) {
                (Some((x, y, w, h)), Some(d)) => d == (x as int, y as int, w as int, h as int),
                (None, None) => true,
                _ => false,
            },
    {
        let taken = self.dirty;
        self.dirty = None;
        match taken {
            Some((x0, y0, x1, y1)) => {
                let x1 = if x1 <= self.width { x1 } else { self.width };
                let y1 = if y1 <= self.height { y1 } else { self.height };
                if x1 <= x0 || y1 <= y0 {
                    None
                } else {
                    Some((x0, y0, x1 - x0, y1 - y0))
                }
            },
            None => None,
        }
    }

    /// Selects the bitmap font and its cells.
    pub fn init_vector_font(&mut self)
        requires
            old(self).inv(),
        ensures
            final(self).inv(),
            final(self)@ == old(self)@.bitmap_font(),
    {
        self.char_width = 8;
        self.char_height = 16;
    }

    /// Copies a rectangle to the visible surface.
    pub fn blit_to_framebuffer(&self, out: &mut Vec<u32>, x: usize, y: usize, w: usize, h: usize)
        requires
            self.inv(),
            old(out)@.len() == self@.pixels.len(),
        ensures
            final(out)@ == self@.blitted(old(out)@, x as int, y as int, w as int, h as int),
    {
        let stride: usize = self.pitch / 4;
        let x1 = clip(x, w, self.width);
        let y1 = clip(y, h, self.height);
        let ghost before = out@;
        if x >= x1 {
            assert(out@ =~= self@.blitted(before, x as int, y as int, w as int, h as int));
            return ;
        }
        let mut row: usize = y;
        assert(out@ =~= self@.blitted(before, x as int, y as int, w as int, 0));
        while row < y1
            invariant
                self.inv(),
                y <= row,
                y1 == min(y + h, self.height as int),
                row <= y1 || row == y,
                x < x1 <= self.width,
                x1 == min(x + w, self.width as int),
                stride == self.pitch / 4,
                before.len() == self@.pixels.len(),
                out@ == self@.blitted(before, x as int, y as int, w as int, row - y),
            decreases y1 - row,
        {
            proof {
                lemma_row_fits(row as int, self.height as int, stride as int);
            }
            let base: usize = row * stride;
            let ghost last = out@;
            let mut at: usize = base + x;
            let end: usize = base + x1;
            while at < end
                invariant
                    base + x <= at <= end,
                    end <= out@.len(),
                    out@.len() == self.pixels@.len(),
                    last.len() == out@.len(),
                    forall|i: int|
                        0 <= i < out@.len() ==> #[trigger] out@[i] == (if base + x <= i < at {
                            self.pixels@[i]
                        } else {
                            last[i]
                        }),
                decreases end - at,
            {
                out.set(at, self.pixels[at]);
                at = at + 1;
            }
            proof {
                let next = self@.blitted(before, x as int, y as int, w as int, row + 1 - y);
                assert forall|i: int| 0 <= i < next.len() implies out@[i] == next[i] by {
                    lemma_span(i, row as int, x as int, x1 as int, stride as int);
                }
                assert(out@ =~= next);
            }
            row = row + 1;
        }
        assert(out@ =~= self@.blitted(before, x as int, y as int, w as int, h as int));
    }

    /// Starts from what the boot loader reported: not found where it reported
    /// nothing, or a surface without extent. `surface` holds what is on the
    /// reported surface.
    pub fn probe(&mut self, info: Option<BootFramebuffer>, surface: Vec<u32>) -> (r: Result<
        (),
        DriverError,
    >)
        requires
            old(self).inv(),
            boot_usable(info) ==> surface_ok(
                surface@.len(),
                info->0.width as int,
                info->0.height as int,
                info->0.pitch as int,
            ),
        ensures
            final(self).inv(),
            r == (if boot_usable(info) {
                Ok(())
            } else {
                Err(DriverError::NotFound)
            }),
            final(self)@ == (if boot_usable(info) {
                old(self)@.attached(
                    surface@,
                    info->0.width as int,
                    info->0.height as int,
                    info->0.pitch as int,
                )
            } else {
                old(self)@
            }),
    {
        match info {
            None => Err(DriverError::NotFound),
            Some(fb) => {
                if fb.base == 0 || fb.width == 0 || fb.height == 0 || fb.pitch == 0 {
                    return Err(DriverError::NotFound);
                }
                self.attach(surface, fb.width as usize, fb.height as usize, fb.pitch as usize);
                Ok(())
            },
        }
    }

    /// Takes over a surface with its contents.
    pub fn attach(&mut self, surface: Vec<u32>, width: usize, height: usize, pitch: usize)
        requires
            old(self).inv(),
            surface_ok(surface@.len(), width as int, height as int, pitch as int),
        ensures
            final(self).inv(),
            final(self)@ == old(self)@.attached(
                surface@,
                width as int,
                height as int,
                pitch as int,
            ),
    {
        let len = surface.len();
        self.pixels = surface;
        self.ready = true;
        self.width = width;
        self.height = height;
        self.pitch = pitch;
    }

    /// Puts the cursor into the top left corner.
    pub fn home(&mut self)
        requires
            old(self).inv(),
        ensures
            final(self).inv(),
            final(self)@ == (Screen { cursor_x: 0, cursor_y: 0, ..old(self)@ }),
    {
        self.cursor_x = 0;
        self.cursor_y = 0;
    }

    /// The cursor as row and column of cells, counted from one.
    pub fn cursor_cell(&self) -> (cell: (usize, usize))
        requires
            self.inv(),
        ensures
            cell.0 == self@.row() + 1,
            cell.1 == self@.col() + 1,
    {
        let row = self.row();
        let col = self.col();
        proof {
            lemma_cells_fit(self.cursor_y as int, self.char_height as int, row as int);
            lemma_cells_fit(self.cursor_x as int, self.char_width as int, col as int);
            assert(row + 1 <= usize::MAX) by (nonlinear_arith)
                requires
                    row * self.char_height <= usize::MAX,
                    self.char_height >= 8,
                    usize::MAX >= 0xFFFF,
            ;
            assert(col + 1 <= usize::MAX) by (nonlinear_arith)
                requires
                    col * self.char_width <= usize::MAX,
                    self.char_width >= 8,
                    usize::MAX >= 0xFFFF,
            ;
        }
        (row + 1, col + 1)
    }

    /// The columns and rows of cells, or nothing without a surface.
    pub fn size(&self) -> (size: Option<(usize, usize)>)
        requires
            self.inv(),
        ensures
            size is Some <==> self@.width > 0 && self@.height > 0,
            size matches Some((cols, rows)) ==> cols == self@.cols() && rows == self@.rows(),
    {
        if self.width == 0 || self.height == 0 {
            None
        } else {
            Some((self.cols(), self.rows()))
        }
    }

    /// The pixel at column `x` of row `y`, where it is on the screen.
    pub fn pixel(&self, x: usize, y: usize) -> (p: Option<u32>)
        requires
            self.inv(),
        ensures
            p == (if x < self@.width && y < self@.height {
                Some(self@.at(x as int, y as int))
            } else {
                None
            }),
    {
        if x < self.width && y < self.height {
            let stride: usize = self.pitch / 4;
            proof {
                lemma_row_fits(y as int, self.height as int, stride as int);
            }
            Some(self.pixels[y * stride + x])
        } else {
            None
        }
    }

    /// Answers a message: tag 1 clears the screen with the colour in its first
    /// four bytes.
    pub fn handle(&mut self, msg: &Message) -> (reply: Message)
        requires
            old(self).inv(),
        ensures
            final(self).inv(),
            final(self)@ == (if msg.tag == 1 {
                old(self)@.clear(u32_at(msg.data@, 0))
            } else {
                old(self)@
            }),
            reply.tag == 0,
            reply.data@ == padded(Seq::empty()),
    {
        if msg.tag == 1 {
            let color = read_u32(&msg.data, 0);
            self.clear(color);
        }
        Message::empty()
    }
}

/// What becomes of the write-back copy when the surface changes.
#[derive(Debug, Clone, Copy, PartialEq, Eq, Structural)]
pub enum ShadowPlan {
    /// The block at hand will do, or there is nothing to copy.
    Keep,
    /// A block of this order is needed, once the one at hand is given back.
    Replace { order: usize },
}

/// Whether a surface of `bytes` bytes needs another block of pages than the one
/// of order `current`. A block that is large enough is never replaced.
pub fn alloc_shadow(bytes: u64, current: Option<usize>) -> (plan: ShadowPlan)
    requires
        bytes <= u64::MAX - 4095,
        current matches Some(order) ==> order < 52,
    ensures
        plan is Keep <==> bytes == 0 || (current matches Some(order) && block_bytes(order as int)
            >= bytes),
        plan matches ShadowPlan::Replace { order } ==> is_order_for(
            pages_for(bytes as int),
            order as int,
        ) && block_bytes(order as int) >= bytes,
{
    if bytes == 0 {
        return ShadowPlan::Keep;
    }
    if let Some(order) = current {
        proof {
            vstd::arithmetic::power2::lemma2_to64();
            vstd::arithmetic::power2::lemma2_to64_rest();
            if order < 51 {
                vstd::arithmetic::power2::lemma_pow2_strictly_increases(order as nat, 51);
            }
            vstd::bits::lemma_u64_shl_is_mul(1, order as u64);
        }
        if (1u64 << (order as u64)) * 4096 >= bytes {
            return ShadowPlan::Keep;
        }
    }
    ShadowPlan::Replace { order: order_for_bytes(bytes) }
}

/// Parameters of a linear framebuffer, as the boot information gives them.
#[derive(Debug, Clone, Copy, PartialEq, Eq, Structural)]
pub struct BootFramebuffer {
    pub base: u64,
    pub width: u32,
    pub height: u32,
    pub pitch: u32,
}

/// Whether a surface was reported, and one with an extent.
pub open spec fn boot_usable(info: Option<BootFramebuffer>) -> bool {
    info matches Some(fb) && fb.base != 0 && fb.width != 0 && fb.height != 0 && fb.pitch != 0
}

} // verus!
