//! What holds of the console whatever is written to it.
use crate::grid::{lemma_cells_fit, lemma_row_fits, lemma_word};
use crate::screen::{max, min, number, numbers, EscState, PixelBox, Screen};
use vstd::arithmetic::div_mod::lemma_fundamental_div_mod;
use vstd::prelude::*;

verus! {

impl Screen {
    /// The two consoles have the same surface geometry and the same cells.
    pub open spec fn same_frame(self, other: Screen) -> bool {
        &&& self.ready == other.ready
        &&& self.width == other.width
        &&& self.height == other.height
        &&& self.pitch == other.pitch
        &&& self.char_width == other.char_width
        &&& self.char_height == other.char_height
        &&& self.pixels.len() == other.pixels.len()
    }

    /// The pixel has changed since the last flush.
    pub open spec fn dirty_at(self, x: int, y: int) -> bool {
        self.dirty matches Some(d) && d.contains(x, y)
    }

    /// The visible surface `out` shows every pixel that is not in the dirty
    /// box as it is.
    pub open spec fn shown_by(self, out: Seq<u32>) -> bool {
        &&& out.len() == self.pixels.len()
        &&& forall|x: int, y: int|
            0 <= x < self.width && 0 <= y < self.height && !self.dirty_at(x, y) ==> (
            #[trigger] self.at(x, y)) == out[self.index(x, y)]
    }

    /// There is room for a cell and a row below it, and the cursor and the
    /// saved cursor are on cells that lie on the screen.
    pub open spec fn cursor_on_screen(self) -> bool {
        &&& self.char_width <= self.width
        &&& self.char_height < self.height
        &&& self.cursor_x + self.char_width <= self.width
        &&& self.cursor_y + self.char_height <= self.height
        &&& self.saved.0 + self.char_width <= self.width
        &&& self.saved.1 + self.char_height <= self.height
    }
}

/// Drawing within a rectangle that is then marked keeps the visible surface in
/// step.
proof fn lemma_drawn(s: Screen, t: Screen, area: PixelBox, out: Seq<u32>)
    requires
        s.wf(),
        s.shown_by(out),
        s.same_frame(t),
        t.dirty == s.dirtied(area),
        forall|i: int|
            0 <= i < s.pixels.len() && i % s.stride() < s.width && !area.contains(
                i % s.stride(),
                i / s.stride(),
            ) ==> #[trigger] t.pixels[i] == s.pixels[i],
    ensures
        t.shown_by(out),
{
    assert forall|x: int, y: int|
        0 <= x < t.width && 0 <= y < t.height && !t.dirty_at(x, y) implies (#[trigger] t.at(x, y))
        == out[t.index(x, y)] by {
        lemma_word(s.index(x, y), y, x, s.stride());
        lemma_row_fits(y, s.height, s.stride());
        assert(s.at(x, y) == out[s.index(x, y)]);
    }
}

proof fn lemma_fill(s: Screen, x: int, y: int, w: int, h: int, color: u32, out: Seq<u32>)
    requires
        s.wf(),
    ensures
        s.fill_rect(x, y, w, h, color).wf(),
        s.same_frame(s.fill_rect(x, y, w, h, color)),
        s.shown_by(out) ==> s.fill_rect(x, y, w, h, color).shown_by(out),
{
    let area = PixelBox { x0: x, y0: y, x1: min(x + w, s.width), y1: min(y + h, s.height) };
    let t = s.fill_rect(x, y, w, h, color);
    if s.shown_by(out) && s.ready && area.x0 < area.x1 && area.y0 < area.y1 {
        lemma_drawn(s, t, area, out);
    }
}

proof fn lemma_char(s: Screen, x: int, y: int, c: char, color: u32, out: Seq<u32>)
    requires
        s.wf(),
        s.ready,
    ensures
        s.draw_char(x, y, c, color).wf(),
        s.same_frame(s.draw_char(x, y, c, color)),
        s.shown_by(out) ==> s.draw_char(x, y, c, color).shown_by(out),
{
    let t = s.draw_char(x, y, c, color);
    let blank = s.fill_rect(x, y, s.char_width, s.char_height, 0);
    let area = PixelBox {
        x0: x,
        y0: y,
        x1: min(x + s.char_width, s.width),
        y1: min(y + s.char_height, s.height),
    };
    lemma_fill(s, x, y, s.char_width, s.char_height, 0, out);
    if s.shown_by(out) {
        assert forall|i: int|
            0 <= i < s.pixels.len() && i % s.stride() < s.width && !area.contains(
                i % s.stride(),
                i / s.stride(),
            ) implies #[trigger] t.pixels[i] == s.pixels[i] by {
            if s.stride() > 0 {
                lemma_fundamental_div_mod(i, s.stride());
                assert(s.stride() * (i / s.stride()) == (i / s.stride()) * s.stride())
                    by (nonlinear_arith);
                if i / s.stride() >= s.height {
                    assert((i / s.stride()) * s.stride() >= s.height * s.stride())
                        by (nonlinear_arith)
                        requires
                            i / s.stride() >= s.height,
                            s.stride() > 0,
                    ;
                }
                assert(blank.stride() == s.stride());
                assert(Screen::glyph(c).len() <= 16);
                assert(blank.pixels[i] == s.pixels[i]);
            } else {
                assert(s.height * s.stride() == 0) by (nonlinear_arith)
                    requires
                        s.stride() == 0,
                ;
            }
        }
        if area.x0 < area.x1 && area.y0 < area.y1 {
            lemma_drawn(s, t, area, out);
        } else {
            assert(forall|x: int, y: int| s.index(x, y) == t.index(x, y));
            assert forall|px: int, py: int|
                0 <= px < t.width && 0 <= py < t.height && !t.dirty_at(px, py) implies (
            #[trigger] t.at(px, py)) == out[t.index(px, py)] by {
                lemma_word(s.index(px, py), py, px, s.stride());
                lemma_row_fits(py, s.height, s.stride());
                assert(s.at(px, py) == out[s.index(px, py)]);
            }
        }
    }
}

proof fn lemma_whole(s: Screen, t: Screen, out: Seq<u32>)
    requires
        s.wf(),
        s.same_frame(t),
        t.dirty == s.dirtied(s.whole()),
    ensures
        s.shown_by(out) ==> t.shown_by(out),
{
    if s.shown_by(out) {
        assert forall|x: int, y: int|
            0 <= x < t.width && 0 <= y < t.height && !t.dirty_at(x, y) implies (#[trigger] t.at(
            x,
            y,
        )) == out[t.index(x, y)] by {
            assert(s.whole().contains(x, y));
        }
    }
}

/// Changes that touch neither the surface nor the dirty box.
proof fn lemma_undrawn(s: Screen, t: Screen, out: Seq<u32>)
    requires
        s.same_frame(t),
        t.pixels == s.pixels,
        t.dirty == s.dirty,
    ensures
        s.shown_by(out) ==> t.shown_by(out),
{
    if s.shown_by(out) {
        assert forall|x: int, y: int|
            0 <= x < t.width && 0 <= y < t.height && !t.dirty_at(x, y) implies (#[trigger] t.at(
            x,
            y,
        )) == out[t.index(x, y)] by {
            assert(s.at(x, y) == out[s.index(x, y)]);
        }
    }
}

proof fn lemma_cell(s: Screen, col: int, row: int, out: Seq<u32>)
    requires
        s.wf(),
        0 <= col <= max(s.col(), s.cols()),
        0 <= row <= max(s.row(), s.rows()),
    ensures
        s.set_cell(col, row).wf(),
        s.same_frame(s.set_cell(col, row)),
        s.shown_by(out) ==> s.set_cell(col, row).shown_by(out),
{
    if col <= s.col() {
        lemma_cells_fit(s.cursor_x, s.char_width, col);
    } else {
        lemma_cells_fit(s.width, s.char_width, col);
    }
    if row <= s.row() {
        lemma_cells_fit(s.cursor_y, s.char_height, row);
    } else {
        lemma_cells_fit(s.height, s.char_height, row);
    }
    lemma_undrawn(s, s.set_cell(col, row), out);
}

proof fn lemma_numbers(params: Seq<u8>)
    ensures
        forall|i: int, d: int| i >= 0 && d >= 0 ==> #[trigger] number(numbers(params), i, d) >= 0,
{
    lemma_scan(params);
}

proof fn lemma_scan(params: Seq<u8>)
    ensures
        ({
            let (done, cur) = crate::screen::scan_numbers(params);
            &&& cur matches Some(n) ==> n >= 0
            &&& forall|i: int| 0 <= i < done.len() ==> (#[trigger] done[i] matches Some(n) ==> n >= 0)
        }),
    decreases params.len(),
{
    if params.len() > 0 {
        lemma_scan(params.drop_last());
    }
}

proof fn lemma_erase(s: Screen, mode: int, out: Seq<u32>)
    requires
        s.wf(),
    ensures
        s.erase_in_display(mode).wf(),
        s.same_frame(s.erase_in_display(mode)),
        s.shown_by(out) ==> s.erase_in_display(mode).shown_by(out),
        s.erase_in_line(mode).wf(),
        s.same_frame(s.erase_in_line(mode)),
        s.shown_by(out) ==> s.erase_in_line(mode).shown_by(out),
{
    let (x, y, w, h, ch) = (s.cursor_x, s.cursor_y, s.width, s.height, s.char_height);
    lemma_fill(s, x, y, w - min(x, w), ch, 0, out);
    lemma_fill(s.fill_rect(x, y, w - min(x, w), ch, 0), 0, y + ch, w, max(h - (y + ch), 0), 0, out);
    lemma_fill(s, 0, 0, w, y, 0, out);
    lemma_fill(s.fill_rect(0, 0, w, y, 0), 0, y, x, ch, 0, out);
    lemma_fill(s, 0, 0, w, h, 0, out);
    lemma_fill(s, 0, y, x, ch, 0, out);
    lemma_fill(s, 0, y, w, ch, 0, out);
}

#[verifier::spinoff_prover]
#[verifier::rlimit(60)]
proof fn lemma_control(s: Screen, params: Seq<u8>, op: u8, out: Seq<u32>)
    requires
        s.wf(),
    ensures
        s.control(params, op).wf(),
        s.same_frame(s.control(params, op)),
        s.shown_by(out) ==> s.control(params, op).shown_by(out),
{
    let nums = numbers(params);
    let (cols, rows, col, row) = (s.cols(), s.rows(), s.col(), s.row());
    let one = number(nums, 0, 1);
    lemma_numbers(params);
    assert(one >= 0 && number(nums, 1, 1) >= 0 && number(nums, 0, 0) >= 0);
    if cols != 0 && rows != 0 {
        lemma_extent(s);
        let down = min(row + one, rows - 1);
        let up = max(row - one, 0);
        let to_row = min(max(one - 1, 0), rows - 1);
        let to_col = min(max(one - 1, 0), cols - 1);
        lemma_cell(s, col, row, out);
        lemma_cell(s, col, up, out);
        lemma_cell(s, col, down, out);
        lemma_cell(s, min(col + one, cols - 1), row, out);
        lemma_cell(s, max(col - one, 0), row, out);
        lemma_cell(s, 0, down, out);
        lemma_cell(s, 0, up, out);
        lemma_cell(s, to_col, row, out);
        lemma_cell(s, col, to_row, out);
        lemma_cell(s, min(max(number(nums, 1, 1) - 1, 0), cols - 1), to_row, out);
        let mode = number(nums, 0, 0);
        lemma_erase(s, mode, out);
        lemma_cell(s.erase_in_display(mode), col, row, out);
        lemma_cell(s.erase_in_line(mode), col, row, out);
        let colored = Screen { fg: crate::screen::sgr(nums, 0, s.fg), ..s };
        lemma_undrawn(s, colored, out);
        lemma_cell(colored, col, row, out);
        let marked = Screen { saved: (s.cursor_x, s.cursor_y), ..s };
        lemma_undrawn(s, marked, out);
        lemma_cell(marked, col, row, out);
        let back = Screen { cursor_x: s.saved.0, cursor_y: s.saved.1, ..s };
        lemma_undrawn(s, back, out);
    }
}

/// Cells and positions are counted from zero.
proof fn lemma_extent(s: Screen)
    requires
        s.wf(),
    ensures
        0 <= s.cols(),
        0 <= s.rows(),
        0 <= s.col(),
        0 <= s.row(),
{
    vstd::arithmetic::div_mod::lemma_div_pos_is_pos(s.width, s.char_width);
    vstd::arithmetic::div_mod::lemma_div_pos_is_pos(s.height, s.char_height);
    vstd::arithmetic::div_mod::lemma_div_pos_is_pos(s.cursor_x, s.char_width);
    vstd::arithmetic::div_mod::lemma_div_pos_is_pos(s.cursor_y, s.char_height);
}

proof fn lemma_scroll(s: Screen, shift: int, out: Seq<u32>)
    requires
        s.wf(),
        0 <= shift,
    ensures
        s.scroll(shift).wf(),
        s.same_frame(s.scroll(shift)),
        s.shown_by(out) ==> s.scroll(shift).shown_by(out),
        s.scroll_down(shift).wf(),
        s.same_frame(s.scroll_down(shift)),
        s.shown_by(out) ==> s.scroll_down(shift).shown_by(out),
{
    if s.ready && shift != 0 && shift < s.height {
        lemma_whole(s, s.scroll(shift), out);
        lemma_whole(s, s.scroll_down(shift), out);
    }
}

proof fn lemma_settled(s: Screen, out: Seq<u32>)
    requires
        s.wf(),
    ensures
        s.settled().wf(),
        s.same_frame(s.settled()),
        s.shown_by(out) ==> s.settled().shown_by(out),
{
    lemma_extent(s);
    let shift = s.scroll_shift(s.char_height);
    assert(shift >= 0) by {
        if s.height > s.char_height {
            let n = min(8, max(s.height / s.char_height - 1, 1));
            assert(s.char_height * n >= 0) by (nonlinear_arith)
                requires
                    s.char_height > 0,
                    n >= 1,
            ;
        }
    }
    lemma_scroll(s, shift, out);
}

proof fn lemma_write_char(s: Screen, c: char, out: Seq<u32>)
    requires
        s.wf(),
        s.ready,
    ensures
        s.write_char(c).wf(),
        s.same_frame(s.write_char(c)),
        s.shown_by(out) ==> s.write_char(c).shown_by(out),
{
    lemma_char(s, s.cursor_x, s.cursor_y, c, s.fg, out);
    lemma_undrawn(s.draw_char(s.cursor_x, s.cursor_y, c, s.fg), s.write_char(c), out);
}

proof fn lemma_text(s: Screen, c: u8, out: Seq<u32>)
    requires
        s.wf(),
        s.ready,
    ensures
        s.text(c).wf(),
        s.same_frame(s.text(c)),
        s.shown_by(out) ==> s.text(c).shown_by(out),
{
    let fresh = Screen { utf8: (0, 0), ..s };
    lemma_undrawn(s, fresh, out);
    if c < 0x80 {
        lemma_write_char(fresh, c as char, out);
    } else if c & 0xE0 == 0xC0 || c & 0xF0 == 0xE0 || c & 0xF8 == 0xF0 {
        lemma_undrawn(s, s.text(c), out);
    } else if c & 0xC0 == 0x80 && s.utf8.0 == 1 {
        let code = (s.utf8.1 << 6) | (c & 0x3F) as u32;
        lemma_write_char(fresh, crate::screen::mapped(code), out);
    } else {
        lemma_undrawn(s, s.text(c), out);
    }
}

proof fn lemma_line(s: Screen, out: Seq<u32>)
    requires
        s.wf(),
    ensures
        s.next_line().wf(),
        s.same_frame(s.next_line()),
        s.shown_by(out) ==> s.next_line().shown_by(out),
{
    lemma_undrawn(s, s.next_line(), out);
}

proof fn lemma_backspace(s: Screen, out: Seq<u32>)
    requires
        s.wf(),
    ensures
        s.backspace().wf(),
        s.same_frame(s.backspace()),
        s.shown_by(out) ==> s.backspace().shown_by(out),
{
    let (cw, ch) = (s.char_width, s.char_height);
    if s.cursor_x >= cw || s.cursor_y >= ch {
        lemma_extent(s);
        lemma_cells_fit(s.width, cw, max(s.cols() - 1, 0));
        let moved = if s.cursor_x >= cw {
            Screen { cursor_x: s.cursor_x - cw, ..s }
        } else {
            Screen { cursor_x: max(s.cols() - 1, 0) * cw, cursor_y: s.cursor_y - ch, ..s }
        };
        lemma_undrawn(s, moved, out);
        lemma_fill(moved, moved.cursor_x, moved.cursor_y, cw, ch, 0, out);
    }
}

proof fn lemma_sequence(s: Screen, c: u8, out: Seq<u32>)
    requires
        s.wf(),
        s.esc != EscState::Ground,
    ensures
        s.in_sequence(c).wf(),
        s.same_frame(s.in_sequence(c)),
        s.shown_by(out) ==> s.in_sequence(c).shown_by(out),
{
    let ground = Screen { esc: EscState::Ground, ..s };
    lemma_undrawn(s, ground, out);
    if s.esc == EscState::Csi && 0x40 <= c <= 0x7e {
        lemma_control(ground, s.params, c, out);
    } else if s.esc == EscState::Esc && c == 0x4d && s.cursor_y < s.char_height {
        lemma_scroll(ground, s.char_height, out);
    } else {
        lemma_undrawn(s, s.in_sequence(c), out);
    }
}

/// Whatever byte is written, the console stays well-formed, keeps its surface
/// and its cells, and what it changes on the screen lies in its dirty box.
pub proof fn lemma_putc_keeps_the_screen(s: Screen, c: u8, out: Seq<u32>)
    requires
        s.wf(),
    ensures
        s.putc(c).wf(),
        s.same_frame(s.putc(c)),
        s.shown_by(out) ==> s.putc(c).shown_by(out),
{
    if s.ready {
        if c == 0x1b {
            lemma_undrawn(s, s.putc(c), out);
        } else if s.esc != EscState::Ground {
            lemma_sequence(s, c, out);
        } else if c == 0x0a {
            lemma_line(s, out);
            lemma_settled(s.next_line(), out);
        } else if c == 0x0d {
            let t = Screen { cursor_x: 0, ..s };
            lemma_undrawn(s, t, out);
            lemma_settled(t, out);
        } else if c == 0x08 {
            lemma_backspace(s, out);
            lemma_settled(s.backspace(), out);
        } else {
            lemma_text(s, c, out);
            lemma_line(s.text(c), out);
            lemma_settled(s.text(c).wrapped(), out);
        }
    }
}

/// The same of a run of output: bytes that are held back and written together
/// leave nothing changed outside the dirty box.
pub proof fn lemma_puts_keeps_the_screen(s: Screen, bytes: Seq<u8>, out: Seq<u32>)
    requires
        s.wf(),
    ensures
        s.puts(bytes).wf(),
        s.same_frame(s.puts(bytes)),
        s.shown_by(out) ==> s.puts(bytes).shown_by(out),
    decreases bytes.len(),
{
    if bytes.len() > 0 {
        lemma_puts_keeps_the_screen(s, bytes.drop_last(), out);
        lemma_putc_keeps_the_screen(s.puts(bytes.drop_last()), bytes.last(), out);
    }
}

/// Clearing keeps what changes in the dirty box too.
pub proof fn lemma_clear_keeps_the_screen(s: Screen, color: u32, out: Seq<u32>)
    requires
        s.wf(),
    ensures
        s.clear(color).wf(),
        s.same_frame(s.clear(color)),
        s.shown_by(out) ==> s.clear(color).shown_by(out),
{
    if s.ready {
        lemma_whole(s, s.clear(color), out);
    }
}

/// Copying the dirty rectangle brings the whole visible surface up to date:
/// what has changed is all of what has to be sent.
pub proof fn lemma_flush_shows_everything(s: Screen, out: Seq<u32>)
    requires
        s.wf(),
        s.shown_by(out),
    ensures
        (Screen { dirty: None, ..s }).shown_by(
            match s.damage() {
                Some((x, y, w, h)) => s.blitted(out, x, y, w, h),
                None => out,
            },
        ),
{
    let t = Screen { dirty: None, ..s };
    let new = match s.damage() {
        Some((x, y, w, h)) => s.blitted(out, x, y, w, h),
        None => out,
    };
    assert forall|x: int, y: int|
        0 <= x < t.width && 0 <= y < t.height && !t.dirty_at(x, y) implies (#[trigger] t.at(x, y))
        == new[t.index(x, y)] by {
        lemma_word(s.index(x, y), y, x, s.stride());
        lemma_row_fits(y, s.height, s.stride());
        if !s.dirty_at(x, y) {
            assert(s.at(x, y) == out[s.index(x, y)]);
        }
    }
}

proof fn lemma_cell_on_screen(s: Screen, col: int, row: int)
    requires
        s.wf(),
        s.cursor_on_screen(),
        0 <= col < s.cols(),
        0 <= row < s.rows(),
    ensures
        s.set_cell(col, row).cursor_on_screen(),
{
    lemma_cells_fit(s.width, s.char_width, col + 1);
    lemma_cells_fit(s.height, s.char_height, row + 1);
    assert((col + 1) * s.char_width == col * s.char_width + s.char_width) by (nonlinear_arith);
    assert((row + 1) * s.char_height == row * s.char_height + s.char_height) by (nonlinear_arith);
}

/// A position with room for its cell is in one of the cells.
proof fn lemma_in_grid(at: int, cell: int, extent: int)
    requires
        0 <= at,
        0 < cell,
        at + cell <= extent,
    ensures
        0 <= at / cell < extent / cell,
{
    lemma_fundamental_div_mod(at, cell);
    lemma_fundamental_div_mod(extent, cell);
    let (q, r) = (at / cell, extent / cell);
    vstd::arithmetic::div_mod::lemma_div_pos_is_pos(at, cell);
    assert(q < r) by (nonlinear_arith)
        requires
            at == cell * q + at % cell,
            extent == cell * r + extent % cell,
            0 <= at % cell,
            extent % cell < cell,
            at + cell <= extent,
            0 < cell,
    ;
}

#[verifier::spinoff_prover]
#[verifier::rlimit(60)]
proof fn lemma_control_on_screen(s: Screen, params: Seq<u8>, op: u8)
    requires
        s.wf(),
        s.cursor_on_screen(),
    ensures
        s.control(params, op).cursor_on_screen(),
{
    let nums = numbers(params);
    let (cols, rows, col, row) = (s.cols(), s.rows(), s.col(), s.row());
    let one = number(nums, 0, 1);
    lemma_numbers(params);
    assert(one >= 0 && number(nums, 1, 1) >= 0 && number(nums, 0, 0) >= 0);
    lemma_in_grid(s.cursor_x, s.char_width, s.width);
    lemma_in_grid(s.cursor_y, s.char_height, s.height);
    let down = min(row + one, rows - 1);
    let up = max(row - one, 0);
    let to_row = min(max(one - 1, 0), rows - 1);
    let to_col = min(max(one - 1, 0), cols - 1);
    lemma_cell_on_screen(s, col, row);
    lemma_cell_on_screen(s, col, up);
    lemma_cell_on_screen(s, col, down);
    lemma_cell_on_screen(s, min(col + one, cols - 1), row);
    lemma_cell_on_screen(s, max(col - one, 0), row);
    lemma_cell_on_screen(s, 0, down);
    lemma_cell_on_screen(s, 0, up);
    lemma_cell_on_screen(s, to_col, row);
    lemma_cell_on_screen(s, col, to_row);
    lemma_cell_on_screen(s, min(max(number(nums, 1, 1) - 1, 0), cols - 1), to_row);
}

proof fn lemma_settled_on_screen(s: Screen)
    requires
        s.wf(),
        s.ready,
        s.char_width <= s.width,
        s.char_height < s.height,
        s.cursor_x + s.char_width <= s.width,
        s.cursor_y <= s.height,
        s.saved.0 + s.char_width <= s.width,
        s.saved.1 + s.char_height <= s.height,
    ensures
        s.settled().cursor_on_screen(),
{
    let ch = s.char_height;
    let n = min(8, max(s.height / ch - 1, 1));
    lemma_fundamental_div_mod(s.height, ch);
    lemma_in_grid(0, ch, s.height);
    assert(ch <= ch * n) by (nonlinear_arith)
        requires
            0 < ch,
            n >= 1,
    ;
    assert(ch * n < s.height) by {
        if s.height / ch >= 2 {
            assert(ch * n < ch * (s.height / ch)) by (nonlinear_arith)
                requires
                    0 < ch,
                    n < s.height / ch,
            ;
        } else {
            assert(ch * n == ch) by (nonlinear_arith)
                requires
                    n == 1,
            ;
        }
    }
}

/// On a screen with room for a cell and a row below it, the cursor never
/// leaves the screen, whatever is written.
pub proof fn lemma_cursor_stays_on_screen(s: Screen, c: u8)
    requires
        s.wf(),
        s.cursor_on_screen(),
    ensures
        s.putc(c).cursor_on_screen(),
{
    if s.ready {
        let ground = Screen { esc: EscState::Ground, ..s };
        if c == 0x1b {
        } else if s.esc == EscState::Csi && 0x40 <= c <= 0x7e {
            lemma_control_on_screen(ground, s.params, c);
        } else if s.esc != EscState::Ground {
        } else if c == 0x0a {
            lemma_settled_on_screen(s.next_line());
        } else if c == 0x0d {
            lemma_settled_on_screen(Screen { cursor_x: 0, ..s });
        } else if c == 0x08 {
            lemma_backspace(s, s.pixels);
            lemma_in_grid(s.cursor_x, s.char_width, s.width);
            lemma_cells_fit(s.width, s.char_width, s.cols());
            assert((s.cols() - 1) * s.char_width == s.cols() * s.char_width - s.char_width)
                by (nonlinear_arith);
            lemma_settled_on_screen(s.backspace());
        } else {
            lemma_text(s, c, s.pixels);
            let t = s.text(c);
            if t.cursor_x + t.char_width > t.width {
                lemma_settled_on_screen(t.next_line());
            } else {
                lemma_settled_on_screen(t);
            }
        }
    }
}

} // verus!
