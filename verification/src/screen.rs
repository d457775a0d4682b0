//! The text console as a value: what is on the surface, and what each byte of
//! output makes of it.
use crate::font::{fallback_row, fira_row, lit};
use vstd::prelude::*;

verus! {

/// Text rows that one scroll advances by.
pub const SCROLL_ROWS: usize = 8;

/// The foreground colour at start and after a reset.
pub const WHITE: u32 = 0xFFFFFF;

/// Longest run of parameter bytes that a control sequence keeps.
pub const MAX_PARAMS: usize = 32;

/// Most numbers that a control sequence keeps.
pub const MAX_NUMBERS: usize = 8;

/// Where the parser stands inside an escape sequence.
#[derive(Debug, Clone, Copy, PartialEq, Eq, Structural)]
pub enum EscState {
    /// Not in a sequence: bytes are text and control characters.
    Ground,
    /// After ESC: the next byte selects the kind of sequence.
    Esc,
    /// After `ESC [`: collecting parameter bytes until a final byte.
    Csi,
    /// After `ESC ]`: swallowing a string until BEL or `ESC \`.
    Osc,
    /// After ESC inside such a string: `\` ends it, anything else resumes it.
    OscEsc,
    /// After a two-byte selector: one more byte is swallowed.
    Discard1,
}

/// A rectangle of pixels as its left, top, right and bottom edge, the last two
/// exclusive.
pub struct PixelBox {
    pub x0: int,
    pub y0: int,
    pub x1: int,
    pub y1: int,
}

impl PixelBox {
    pub open spec fn contains(self, x: int, y: int) -> bool {
        self.x0 <= x < self.x1 && self.y0 <= y < self.y1
    }

    /// The smallest box around this one and `other`.
    pub open spec fn join(self, other: PixelBox) -> PixelBox {
        PixelBox {
            x0: min(self.x0, other.x0),
            y0: min(self.y0, other.y0),
            x1: max(self.x1, other.x1),
            y1: max(self.y1, other.y1),
        }
    }
}

pub open spec fn min(a: int, b: int) -> int {
    if a <= b { a } else { b }
}

pub open spec fn max(a: int, b: int) -> int {
    if a >= b { a } else { b }
}

/// A number, or the largest `usize` where it is larger than that.
pub open spec fn capped(v: int) -> int {
    if v > usize::MAX { usize::MAX as int } else { v }
}

/// The console as a value: the surface and the state of the emulator.
#[verifier::ext_equal]
pub struct Screen {
    /// The surface, row by row, each row `pitch / 4` words long.
    pub pixels: Seq<u32>,
    /// Whether a surface has been attached.
    pub ready: bool,
    pub width: int,
    pub height: int,
    /// Bytes per row.
    pub pitch: int,
    /// Cursor position in pixels.
    pub cursor_x: int,
    pub cursor_y: int,
    /// Size of a character cell in pixels.
    pub char_width: int,
    pub char_height: int,
    pub esc: EscState,
    pub params: Seq<u8>,
    pub fg: u32,
    pub saved: (int, int),
    /// The box around everything changed since the last flush.
    pub dirty: Option<PixelBox>,
    /// Continuation bytes still awaited, and the code point so far.
    pub utf8: (int, u32),
}

impl Screen {
    /// A console without a surface.
    pub open spec fn fresh() -> Screen {
        Screen {
            pixels: Seq::empty(),
            ready: false,
            width: 0,
            height: 0,
            pitch: 0,
            cursor_x: 0,
            cursor_y: 0,
            char_width: 12,
            char_height: 20,
            esc: EscState::Ground,
            params: Seq::empty(),
            fg: WHITE,
            saved: (0, 0),
            dirty: None,
            utf8: (0, 0),
        }
    }

    pub open spec fn stride(self) -> int {
        self.pitch / 4
    }

    /// What holds of every console: the rows fit their stride, the surface has
    /// exactly its rows, and the cell is one of the two fonts' cells.
    pub open spec fn wf(self) -> bool {
        &&& 0 <= self.width <= self.stride()
        &&& self.width <= usize::MAX
        &&& 0 <= self.height <= usize::MAX
        &&& 0 <= self.pitch <= usize::MAX
        &&& self.pixels.len() == self.height * self.stride()
        &&& self.pixels.len() <= usize::MAX
        &&& 0 <= self.cursor_x <= usize::MAX
        &&& 0 <= self.cursor_y <= usize::MAX
        &&& 0 <= self.saved.0 <= usize::MAX
        &&& 0 <= self.saved.1 <= usize::MAX
        &&& (self.char_width, self.char_height) == (12int, 20int) || (
        self.char_width,
        self.char_height,
        ) == (8int, 16int)
        &&& self.params.len() <= MAX_PARAMS
        &&& 0 <= self.utf8.0 <= 3
    }

    /// The word of the pixel at column `x` of row `y`.
    pub open spec fn index(self, x: int, y: int) -> int {
        y * self.stride() + x
    }

    /// The pixel at column `x` of row `y`.
    pub open spec fn at(self, x: int, y: int) -> u32 {
        self.pixels[self.index(x, y)]
    }

    pub open spec fn whole(self) -> PixelBox {
        PixelBox { x0: 0, y0: 0, x1: self.width, y1: self.height }
    }

    /// The dirty box grown to hold `area` too.
    pub open spec fn dirtied(self, area: PixelBox) -> Option<PixelBox> {
        match self.dirty {
            Some(d) => Some(d.join(area)),
            None => Some(area),
        }
    }

    pub open spec fn set_pixel(self, x: int, y: int, color: u32) -> Screen {
        if x < self.width && y < self.height {
            Screen {
                pixels: self.pixels.update(self.index(x, y), color),
                dirty: self.dirtied(PixelBox { x0: x, y0: y, x1: x + 1, y1: y + 1 }),
                ..self
            }
        } else {
            self
        }
    }

    /// The surface with every pixel of `area` set to `color`.
    pub open spec fn painted(self, area: PixelBox, color: u32) -> Seq<u32> {
        Seq::new(
            self.pixels.len(),
            |i: int|
                if area.contains(i % self.stride(), i / self.stride()) {
                    color
                } else {
                    self.pixels[i]
                },
        )
    }

    /// A rectangle filled with one colour, as far as it is on the screen.
    pub open spec fn fill_rect(self, x: int, y: int, w: int, h: int, color: u32) -> Screen {
        let area = PixelBox {
            x0: x,
            y0: y,
            x1: min(x + w, self.width),
            y1: min(y + h, self.height),
        };
        if !self.ready || area.x0 >= area.x1 || area.y0 >= area.y1 {
            self
        } else {
            Screen { pixels: self.painted(area, color), dirty: self.dirtied(area), ..self }
        }
    }

    /// The surface with the lit pixels of a glyph drawn at (`x`, `y`), as far
    /// as they are on the screen.
    pub open spec fn inked(self, x: int, y: int, glyph: Seq<u8>, color: u32) -> Seq<u32> {
        Seq::new(
            self.pixels.len(),
            |i: int|
                {
                    let gx = i % self.stride() - x;
                    let gy = i / self.stride() - y;
                    if i % self.stride() < self.width && 0 <= gx < 8 && 0 <= gy < glyph.len()
                        && lit(glyph[gy], gx) {
                        color
                    } else {
                        self.pixels[i]
                    }
                },
        )
    }

    /// The glyph that stands for a character: the main font's where it has
    /// one, the fallback font's for the low byte of the code otherwise.
    pub open spec fn glyph(c: char) -> Seq<u8> {
        let code = c as u32;
        if code < 256 {
            Seq::new(16, |row: int| fira_row(code as int, row))
        } else if code % 256 < 128 {
            Seq::new(8, |row: int| fallback_row((code % 256) as int, row))
        } else {
            Seq::empty()
        }
    }

    /// A character cell cleared and then drawn.
    pub open spec fn draw_char(self, x: int, y: int, c: char, color: u32) -> Screen {
        let blank = self.fill_rect(x, y, self.char_width, self.char_height, 0);
        Screen { pixels: blank.inked(x, y, Self::glyph(c), color), ..blank }
    }

    pub open spec fn clear(self, color: u32) -> Screen {
        if self.ready {
            Screen {
                pixels: Seq::new(self.pixels.len(), |i: int| color),
                cursor_x: 0,
                cursor_y: 0,
                dirty: self.dirtied(self.whole()),
                ..self
            }
        } else {
            self
        }
    }

    /// Pixel rows that one scroll advances by where text rows are `char_h`
    /// tall: [`SCROLL_ROWS`] of them, but never so many that no text row is
    /// left above the cursor.
    pub open spec fn scroll_shift(self, char_h: int) -> int {
        if char_h == 0 || self.height <= char_h {
            0
        } else {
            char_h * min(SCROLL_ROWS as int, max(self.height / char_h - 1, 1))
        }
    }

    /// The surface moved up by `shift` pixel rows, blank below.
    pub open spec fn scrolled_up(self, shift: int) -> Seq<u32> {
        Seq::new(
            self.pixels.len(),
            |i: int|
                if i < (self.height - shift) * self.stride() {
                    self.pixels[i + shift * self.stride()]
                } else {
                    0
                },
        )
    }

    /// The surface moved down by `shift` pixel rows, blank above.
    pub open spec fn scrolled_down(self, shift: int) -> Seq<u32> {
        Seq::new(
            self.pixels.len(),
            |i: int|
                if i >= shift * self.stride() {
                    self.pixels[i - shift * self.stride()]
                } else {
                    0
                },
        )
    }

    pub open spec fn scroll(self, shift: int) -> Screen {
        if !self.ready || shift == 0 || shift >= self.height {
            self
        } else {
            Screen {
                pixels: self.scrolled_up(shift),
                cursor_y: max(self.cursor_y - shift, 0),
                dirty: self.dirtied(self.whole()),
                ..self
            }
        }
    }

    pub open spec fn scroll_down(self, shift: int) -> Screen {
        if !self.ready || shift == 0 || shift >= self.height {
            self
        } else {
            Screen { pixels: self.scrolled_down(shift), dirty: self.dirtied(self.whole()), ..self }
        }
    }
}


/// The numbers of a control sequence: the finished ones, and the one being
/// read. A number is absent where no digit stood for it.
pub open spec fn scan_numbers(params: Seq<u8>) -> (Seq<Option<int>>, Option<int>)
    decreases params.len(),
{
    if params.len() == 0 {
        (Seq::empty(), None)
    } else {
        let (done, cur) = scan_numbers(params.drop_last());
        let b = params.last();
        if 0x30 <= b <= 0x39 {
            (done, Some(capped(value_or(cur, 0) * 10 + (b - 0x30))))
        } else if b == 0x3b {
            (if done.len() < MAX_NUMBERS { done.push(cur) } else { done }, None)
        } else {
            (done, cur)
        }
    }
}

/// The numbers of a control sequence, separated by semicolons.
pub open spec fn numbers(params: Seq<u8>) -> Seq<Option<int>> {
    let (done, cur) = scan_numbers(params);
    if done.len() < MAX_NUMBERS {
        done.push(cur)
    } else {
        done
    }
}

pub open spec fn value_or(v: Option<int>, default: int) -> int {
    match v {
        Some(n) => n,
        None => default,
    }
}

/// Number `i` of a list, or the default where it is absent.
pub open spec fn number(nums: Seq<Option<int>>, i: int, default: int) -> int {
    if i < nums.len() { value_or(nums[i], default) } else { default }
}

/// Whether the sequence is one of the private ones.
pub open spec fn is_private(params: Seq<u8>) -> bool {
    params.len() > 0 && params[0] == 0x3f
}

/// The eight basic colours.
pub open spec fn basic(n: int) -> u32 {
    if n == 0 {
        0x000000
    } else if n == 1 {
        0xCD0000
    } else if n == 2 {
        0x00CD00
    } else if n == 3 {
        0xCDCD00
    } else if n == 4 {
        0x0000EE
    } else if n == 5 {
        0xCD00CD
    } else if n == 6 {
        0x00CDCD
    } else {
        0xE5E5E5
    }
}

/// Their bright forms.
pub open spec fn bright(n: int) -> u32 {
    if n == 0 {
        0x7F7F7F
    } else if n == 1 {
        0xFF0000
    } else if n == 2 {
        0x00FF00
    } else if n == 3 {
        0xFFFF00
    } else if n == 4 {
        0x5C5CFF
    } else if n == 5 {
        0xFF00FF
    } else if n == 6 {
        0x00FFFF
    } else {
        0xFFFFFF
    }
}

/// One of the six levels of a channel of the colour cube.
pub open spec fn level(n: int) -> u32 {
    if n == 0 { 0 } else { (55 + 40 * n) as u32 }
}

/// A colour from its three channels, the lowest byte being blue.
pub open spec fn rgb(r: u32, g: u32, b: u32) -> u32 {
    (r << 16) | (g << 8) | b
}

/// A colour by its number: sixteen named ones, a cube of six levels per
/// channel, and a ramp of greys.
pub open spec fn xterm256(n: int) -> u32 {
    if n < 8 {
        basic(n)
    } else if n < 16 {
        bright(n - 8)
    } else if n < 232 {
        rgb(level((n - 16) / 36), level((n - 16) / 6 % 6), level((n - 16) % 6))
    } else if n < 256 {
        let v = (8 + (n - 232) * 10) as u32;
        rgb(v, v, v)
    } else {
        WHITE
    }
}

/// The foreground colour once the attributes from number `i` on are applied.
/// Only colours are kept: other attributes are skipped.
pub open spec fn sgr(nums: Seq<Option<int>>, i: int, fg: u32) -> u32
    decreases max(nums.len() - i, 0),
{
    if i >= nums.len() {
        fg
    } else {
        let n = number(nums, i, 0);
        if n == 0 || n == 39 {
            sgr(nums, i + 1, WHITE)
        } else if 30 <= n <= 37 {
            sgr(nums, i + 1, basic(n - 30))
        } else if 90 <= n <= 97 {
            sgr(nums, i + 1, bright(n - 90))
        } else if n == 38 && number(nums, i + 1, 0) == 5 {
            sgr(
                nums,
                i + 3,
                if i + 2 < nums.len() { xterm256(number(nums, i + 2, 0)) } else { fg },
            )
        } else if n == 38 && number(nums, i + 1, 0) == 2 {
            sgr(
                nums,
                i + 5,
                rgb(
                    number(nums, i + 2, 0) as u32,
                    number(nums, i + 3, 0) as u32,
                    number(nums, i + 4, 0) as u32,
                ),
            )
        } else {
            sgr(nums, i + 1, fg)
        }
    }
}

/// The character that stands for a code point outside ASCII: box drawing has
/// pictures in the low codes, everything else is a question mark.
pub open spec fn mapped(code: u32) -> char {
    if code == 0x2550 {
        '\u{1}'
    } else if code == 0x2551 {
        '\u{2}'
    } else if code == 0x2554 {
        '\u{3}'
    } else if code == 0x2557 {
        '\u{4}'
    } else if code == 0x255A {
        '\u{5}'
    } else if code == 0x255D {
        '\u{6}'
    } else if code == 0x2569 {
        '\u{7}'
    } else if code == 0x2566 {
        '\u{8}'
    } else if code == 0x2560 {
        '\u{9}'
    } else if code == 0x2563 {
        '\u{a}'
    } else if code == 0x2588 {
        '\u{b}'
    } else {
        '?'
    }
}

impl Screen {
    pub open spec fn cols(self) -> int {
        self.width / self.char_width
    }

    pub open spec fn rows(self) -> int {
        self.height / self.char_height
    }

    pub open spec fn col(self) -> int {
        self.cursor_x / self.char_width
    }

    pub open spec fn row(self) -> int {
        self.cursor_y / self.char_height
    }

    pub open spec fn set_cell(self, col: int, row: int) -> Screen {
        Screen { cursor_x: col * self.char_width, cursor_y: row * self.char_height, ..self }
    }

    /// Erasure in the display: 0 from the cursor to the end, 1 from the start
    /// to the cursor, anything else the whole screen. The cursor stays.
    pub open spec fn erase_in_display(self, mode: int) -> Screen {
        let (x, y, w, h, ch) = (
            self.cursor_x,
            self.cursor_y,
            self.width,
            self.height,
            self.char_height,
        );
        if mode == 0 {
            self.fill_rect(x, y, w - min(x, w), ch, 0).fill_rect(
                0,
                y + ch,
                w,
                max(h - (y + ch), 0),
                0,
            )
        } else if mode == 1 {
            self.fill_rect(0, 0, w, y, 0).fill_rect(0, y, x, ch, 0)
        } else {
            self.fill_rect(0, 0, w, h, 0)
        }
    }

    /// Erasure in the cursor's line, with the same modes.
    pub open spec fn erase_in_line(self, mode: int) -> Screen {
        let (x, y, w, ch) = (self.cursor_x, self.cursor_y, self.width, self.char_height);
        if mode == 0 {
            self.fill_rect(x, y, w - min(x, w), ch, 0)
        } else if mode == 1 {
            self.fill_rect(0, y, x, ch, 0)
        } else {
            self.fill_rect(0, y, w, ch, 0)
        }
    }

    /// What a control sequence does: cursor movement within the grid, erasure,
    /// colours, and saving and restoring the cursor. A private or an unknown
    /// sequence only settles the cursor on its cell.
    pub open spec fn control(self, params: Seq<u8>, op: u8) -> Screen {
        let nums = numbers(params);
        let (cols, rows, col, row) = (self.cols(), self.rows(), self.col(), self.row());
        let one = number(nums, 0, 1);
        let down = min(row + one, rows - 1);
        let up = max(row - one, 0);
        let to_row = min(max(one - 1, 0), rows - 1);
        let to_col = min(max(one - 1, 0), cols - 1);
        if cols == 0 || rows == 0 {
            self
        } else if is_private(params) {
            self.set_cell(col, row)
        } else if op == 0x41 {  // A
            self.set_cell(col, up)
        } else if op == 0x42 {  // B
            self.set_cell(col, down)
        } else if op == 0x43 {  // C
            self.set_cell(min(col + one, cols - 1), row)
        } else if op == 0x44 {  // D
            self.set_cell(max(col - one, 0), row)
        } else if op == 0x45 {  // E
            self.set_cell(0, down)
        } else if op == 0x46 {  // F
            self.set_cell(0, up)
        } else if op == 0x47 || op == 0x60 {  // G `
            self.set_cell(to_col, row)
        } else if op == 0x64 {  // d
            self.set_cell(col, to_row)
        } else if op == 0x48 || op == 0x66 {  // H f
            self.set_cell(min(max(number(nums, 1, 1) - 1, 0), cols - 1), to_row)
        } else if op == 0x4a {  // J
            self.erase_in_display(number(nums, 0, 0)).set_cell(col, row)
        } else if op == 0x4b {  // K
            self.erase_in_line(number(nums, 0, 0)).set_cell(col, row)
        } else if op == 0x6d {  // m
            Screen { fg: sgr(nums, 0, self.fg), ..self }.set_cell(col, row)
        } else if op == 0x73 {  // s
            Screen { saved: (self.cursor_x, self.cursor_y), ..self }.set_cell(col, row)
        } else if op == 0x75 {  // u
            Screen { cursor_x: self.saved.0, cursor_y: self.saved.1, ..self }
        } else {
            self.set_cell(col, row)
        }
    }

    /// One line up, or the whole text one row down where the cursor is in the
    /// top row.
    pub open spec fn reverse_index(self) -> Screen {
        if self.cursor_y >= self.char_height {
            Screen { cursor_y: self.cursor_y - self.char_height, ..self }
        } else {
            self.scroll_down(self.char_height)
        }
    }

    /// The byte after ESC.
    pub open spec fn escape(self, c: u8) -> Screen {
        let ground = Screen { esc: EscState::Ground, ..self };
        if c == 0x5b {  // [
            Screen { esc: EscState::Csi, params: Seq::empty(), ..self }
        } else if c == 0x5d {  // ]
            Screen { esc: EscState::Osc, ..self }
        } else if c == 0x28 || c == 0x29 || c == 0x2a || c == 0x2b || c == 0x23 || c == 0x25 {
            Screen { esc: EscState::Discard1, ..self }
        } else if c == 0x37 {  // 7
            Screen { saved: (self.cursor_x, self.cursor_y), ..ground }
        } else if c == 0x38 {  // 8
            Screen { cursor_x: self.saved.0, cursor_y: self.saved.1, ..ground }
        } else if c == 0x4d {  // M
            ground.reverse_index()
        } else {
            ground
        }
    }

    /// A byte of a control sequence.
    pub open spec fn collect(self, c: u8) -> Screen {
        let ground = Screen { esc: EscState::Ground, ..self };
        if 0x20 <= c <= 0x3f {
            if self.params.len() < MAX_PARAMS {
                Screen { params: self.params.push(c), ..self }
            } else {
                self
            }
        } else if 0x40 <= c <= 0x7e {
            ground.control(self.params, c)
        } else {
            ground
        }
    }

    /// A byte inside an escape sequence.
    pub open spec fn in_sequence(self, c: u8) -> Screen {
        match self.esc {
            EscState::Ground => self,
            EscState::Esc => self.escape(c),
            EscState::Csi => self.collect(c),
            EscState::Osc => if c == 0x07 {
                Screen { esc: EscState::Ground, ..self }
            } else {
                self
            },
            EscState::OscEsc => Screen {
                esc: if c == 0x5c { EscState::Ground } else { EscState::Osc },
                ..self
            },
            EscState::Discard1 => Screen { esc: EscState::Ground, ..self },
        }
    }

    /// A character drawn at the cursor, which moves past it.
    pub open spec fn write_char(self, c: char) -> Screen {
        let drawn = self.draw_char(self.cursor_x, self.cursor_y, c, self.fg);
        Screen { cursor_x: capped(drawn.cursor_x + drawn.char_width), ..drawn }
    }

    /// A byte of text: ASCII is drawn, a UTF-8 sequence is drawn when it is
    /// complete, anything else is dropped.
    pub open spec fn text(self, c: u8) -> Screen {
        let fresh = Screen { utf8: (0, 0), ..self };
        if c < 0x80 {
            fresh.write_char(c as char)
        } else if c & 0xE0 == 0xC0 {
            Screen { utf8: (1, (c & 0x1F) as u32), ..self }
        } else if c & 0xF0 == 0xE0 {
            Screen { utf8: (2, (c & 0x0F) as u32), ..self }
        } else if c & 0xF8 == 0xF0 {
            Screen { utf8: (3, (c & 0x07) as u32), ..self }
        } else if c & 0xC0 == 0x80 && self.utf8.0 > 0 {
            let code = (self.utf8.1 << 6) | (c & 0x3F) as u32;
            if self.utf8.0 == 1 {
                fresh.write_char(mapped(code))
            } else {
                Screen { utf8: (self.utf8.0 - 1, code), ..self }
            }
        } else {
            fresh
        }
    }

    pub open spec fn next_line(self) -> Screen {
        Screen { cursor_x: 0, cursor_y: capped(self.cursor_y + self.char_height), ..self }
    }

    /// The cursor brought to the next line where no further cell fits into its
    /// line.
    pub open spec fn wrapped(self) -> Screen {
        if self.cursor_x + self.char_width > self.width {
            self.next_line()
        } else {
            self
        }
    }

    /// The cell before the cursor erased and the cursor moved onto it; at the
    /// start of a line that is the last cell of the line above.
    pub open spec fn backspace(self) -> Screen {
        let (cw, ch) = (self.char_width, self.char_height);
        let moved = if self.cursor_x >= cw {
            Screen { cursor_x: self.cursor_x - cw, ..self }
        } else {
            Screen {
                cursor_x: max(self.cols() - 1, 0) * cw,
                cursor_y: self.cursor_y - ch,
                ..self
            }
        };
        if self.cursor_x < cw && self.cursor_y < ch {
            self
        } else {
            moved.fill_rect(moved.cursor_x, moved.cursor_y, cw, ch, 0)
        }
    }

    /// Room made for the cursor's line where it has run off the bottom.
    pub open spec fn settled(self) -> Screen {
        if self.cursor_y + self.char_height > self.height {
            self.scroll(self.scroll_shift(self.char_height))
        } else {
            self
        }
    }

    /// One byte of output.
    pub open spec fn putc(self, c: u8) -> Screen {
        if !self.ready {
            self
        } else if c == 0x1b {
            Screen {
                esc: if self.esc == EscState::Osc { EscState::OscEsc } else { EscState::Esc },
                params: Seq::empty(),
                ..self
            }
        } else if self.esc != EscState::Ground {
            self.in_sequence(c)
        } else if c == 0x0a {
            self.next_line().settled()
        } else if c == 0x0d {
            Screen { cursor_x: 0, ..self }.settled()
        } else if c == 0x08 {
            self.backspace().settled()
        } else {
            self.text(c).wrapped().settled()
        }
    }

    /// A run of output.
    pub open spec fn puts(self, bytes: Seq<u8>) -> Screen
        decreases bytes.len(),
    {
        if bytes.len() == 0 {
            self
        } else {
            self.puts(bytes.drop_last()).putc(bytes.last())
        }
    }

    /// The dirty box as left, top, width and height, cut to the screen, or
    /// nothing where that leaves no pixel.
    pub open spec fn damage(self) -> Option<(int, int, int, int)> {
        match self.dirty {
            Some(d) => {
                let x1 = min(d.x1, self.width);
                let y1 = min(d.y1, self.height);
                if x1 <= d.x0 || y1 <= d.y0 {
                    None
                } else {
                    Some((d.x0, d.y0, x1 - d.x0, y1 - d.y0))
                }
            },
            None => None,
        }
    }

    /// A visible surface once a rectangle of this one is copied to it.
    pub open spec fn blitted(self, out: Seq<u32>, x: int, y: int, w: int, h: int) -> Seq<u32> {
        let area = PixelBox {
            x0: x,
            y0: y,
            x1: min(x + w, self.width),
            y1: min(y + h, self.height),
        };
        Seq::new(
            out.len(),
            |i: int|
                if area.contains(i % self.stride(), i / self.stride()) {
                    self.pixels[i]
                } else {
                    out[i]
                },
        )
    }

    /// The console on another surface.
    pub open spec fn attached(
        self,
        surface: Seq<u32>,
        width: int,
        height: int,
        pitch: int,
    ) -> Screen {
        Screen { pixels: surface, ready: true, width, height, pitch, ..self }
    }

    /// The console with the bitmap font's cells.
    pub open spec fn bitmap_font(self) -> Screen {
        Screen { char_width: 8, char_height: 16, ..self }
    }
}

/// A surface as the console can draw on it: its rows do not overlap.
pub open spec fn surface_ok(len: nat, width: int, height: int, pitch: int) -> bool {
    &&& width <= pitch / 4
    &&& len == height * (pitch / 4)
}

} // verus!
