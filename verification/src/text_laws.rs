//! What text does to the pixels and the cursor of the console, told from the bytes
//! that are written.
use crate::control_laws::{at_rest, lemma_a_filled_rectangle, lemma_has_cells, on_screen, same_look};
use crate::font::{fira_row, lit};
use crate::grid::{lemma_row_fits, lemma_word};
use crate::screen::{EscState, Screen};
use vstd::prelude::*;

verus! {

/// Pixel (`x`, `y`) of the picture for a code is lit: rows are bytes, and the
/// highest bit is the leftmost pixel.
pub open spec fn ink(code: u8, x: int, y: int) -> bool {
    0 <= x < 8 && 0 <= y < 16 && fira_row(code as int, y) & (0x80u8 >> (x as u8)) != 0
}

/// The cell whose upper left pixel is (`x`, `y`) shows the picture for `code` in
/// `color` on black; every other pixel is as it was.
pub open spec fn cell_drawn(s: Screen, t: Screen, x: int, y: int, code: u8, color: u32) -> bool {
    forall|px: int, py: int|
        on_screen(s, px, py) ==> #[trigger] t.at(px, py) == (if !(x <= px < x + s.char_width && y
            <= py < y + s.char_height) {
            s.at(px, py)
        } else if ink(code, px - x, py - y) {
            color
        } else {
            0
        })
}

/// Every pixel on the screen is as it was.
pub open spec fn same_pixels(s: Screen, t: Screen) -> bool {
    forall|x: int, y: int| on_screen(s, x, y) ==> #[trigger] t.at(x, y) == s.at(x, y)
}

/// The cell the cursor is on lies on the screen.
pub open spec fn cell_fits(s: Screen) -> bool {
    s.cursor_x + s.char_width <= s.width && s.cursor_y + s.char_height <= s.height
}

/// The bit of a pixel of a row.
proof fn lemma_bit(bits: u8, x: int)
    requires
        0 <= x < 8,
    ensures
        lit(bits, x) <==> bits & (0x80u8 >> (x as u8)) != 0,
{
    let k = x as u8;
    assert(1u8 << ((7 - k) as u8) == 0x80u8 >> k) by (bit_vector)
        requires
            k < 8,
    ;
    assert((7 - x) as u8 == (7 - k) as u8);
}

/// Drawing a character shows its picture in its cell, and changes nothing else.
#[verifier::spinoff_prover]
pub proof fn lemma_a_drawn_character(s: Screen, x: int, y: int, c: char, color: u32)
    requires
        s.wf(),
        s.ready,
        0 <= x,
        0 <= y,
        (c as u32) < 256,
    ensures
        s.draw_char(x, y, c, color).wf(),
        same_look(s, s.draw_char(x, y, c, color)),
        cell_drawn(s, s.draw_char(x, y, c, color), x, y, c as u8, color),
{
    let blank = s.fill_rect(x, y, s.char_width, s.char_height, 0);
    let t = s.draw_char(x, y, c, color);
    lemma_a_filled_rectangle(s, x, y, s.char_width, s.char_height, 0);
    assert forall|px: int, py: int| on_screen(s, px, py) implies #[trigger] t.at(px, py) == (if !(x
        <= px < x + s.char_width && y <= py < y + s.char_height) {
        s.at(px, py)
    } else if ink(c as u8, px - x, py - y) {
        color
    } else {
        0
    }) by {
        let below = blank.at(px, py);
        lemma_row_fits(py, s.height, s.stride());
        lemma_word(s.index(px, py), py, px, s.stride());
        assert(0 <= s.index(px, py) < s.pixels.len());
        let (gx, gy) = (px - x, py - y);
        if 0 <= gx < 8 && 0 <= gy < 16 {
            lemma_bit(fira_row(c as int, gy), gx);
        }
    }
}

/// A character written where there is room for it and for the next one.
proof fn lemma_written(s: Screen, c: char)
    requires
        at_rest(s),
        cell_fits(s),
        (c as u32) < 256,
    ensures
        ({
            let t = s.write_char(c);
            &&& t.wf()
            &&& same_look(s, t)
            &&& t.esc == s.esc
            &&& t.fg == s.fg
            &&& t.saved == s.saved
            &&& t.cursor_x == s.cursor_x + s.char_width
            &&& t.cursor_y == s.cursor_y
            &&& cell_drawn(s, t, s.cursor_x, s.cursor_y, c as u8, s.fg)
        }),
{
    lemma_a_drawn_character(s, s.cursor_x, s.cursor_y, c, s.fg);
    let drawn = s.draw_char(s.cursor_x, s.cursor_y, c, s.fg);
    let t = s.write_char(c);
    assert forall|px: int, py: int| on_screen(s, px, py) implies #[trigger] t.at(px, py)
        == drawn.at(px, py) by {}
}

/// An ASCII character is shown in the cursor's cell in the colour of text. The
/// cursor goes to the next cell of the row where one fits, and to the start of the
/// next row where none does. Every other pixel is as it was.
pub proof fn lemma_a_character_is_shown(s: Screen, c: u8)
    requires
        at_rest(s),
        cell_fits(s),
        0x20 <= c <= 0x7e,
        s.cursor_x + 2 * s.char_width <= s.width || s.cursor_y + 2 * s.char_height <= s.height,
    ensures
        ({
            let t = s.putc(c);
            let next = s.cursor_x + 2 * s.char_width <= s.width;
            &&& t.wf()
            &&& same_look(s, t)
            &&& t.fg == s.fg
            &&& cell_drawn(s, t, s.cursor_x, s.cursor_y, c, s.fg)
            &&& t.cursor_x == (if next {
                s.cursor_x + s.char_width
            } else {
                0
            })
            &&& t.cursor_y == (if next {
                s.cursor_y
            } else {
                s.cursor_y + s.char_height
            })
        }),
{
    let fresh = Screen { utf8: (0, 0), ..s };
    lemma_written(fresh, c as char);
    let w = fresh.write_char(c as char);
    let t = s.putc(c);
    assert(t.pixels == w.pixels);
    assert forall|px: int, py: int| on_screen(s, px, py) implies #[trigger] t.at(px, py) == w.at(
        px,
        py,
    ) && fresh.at(px, py) == s.at(px, py) by {}
}

/// The text moved up by some pixel rows, blank below.
pub open spec fn moved_up(s: Screen, t: Screen, by: int) -> bool {
    forall|x: int, y: int|
        on_screen(s, x, y) ==> #[trigger] t.at(x, y) == (if y + by < s.height {
            s.at(x, y + by)
        } else {
            0
        })
}

/// The text moved down by some pixel rows, blank above.
pub open spec fn moved_down(s: Screen, t: Screen, by: int) -> bool {
    forall|x: int, y: int|
        on_screen(s, x, y) ==> #[trigger] t.at(x, y) == (if y >= by {
            s.at(x, y - by)
        } else {
            0
        })
}

/// Scrolling moves the pixels and blanks what comes in.
#[verifier::spinoff_prover]
pub proof fn lemma_scrolling_moves_the_pixels(s: Screen, by: int)
    requires
        s.wf(),
        s.ready,
        0 < by < s.height,
    ensures
        moved_up(s, s.scroll(by), by),
        s.scroll(by).cursor_x == s.cursor_x,
        s.scroll(by).cursor_y == (if s.cursor_y >= by {
            s.cursor_y - by
        } else {
            0
        }),
        moved_down(s, s.scroll_down(by), by),
        s.scroll_down(by).cursor_x == s.cursor_x,
        s.scroll_down(by).cursor_y == s.cursor_y,
{
    let (up, down, st) = (s.scroll(by), s.scroll_down(by), s.stride());
    assert forall|x: int, y: int| on_screen(s, x, y) implies #[trigger] up.at(x, y) == (if y + by
        < s.height {
        s.at(x, y + by)
    } else {
        0
    }) by {
        lemma_row_fits(y, s.height, st);
        assert(y * st + by * st == (y + by) * st) by (nonlinear_arith);
        if y + by < s.height {
            lemma_row_fits(y, s.height - by, st);
        } else {
            assert((s.height - by) * st <= y * st) by (nonlinear_arith)
                requires
                    s.height - by <= y,
                    0 <= st,
            ;
        }
    }
    assert forall|x: int, y: int| on_screen(s, x, y) implies #[trigger] down.at(x, y) == (if y
        >= by {
        s.at(x, y - by)
    } else {
        0
    }) by {
        lemma_row_fits(y, s.height, st);
        assert(y * st - by * st == (y - by) * st) by (nonlinear_arith);
        if y >= by {
            assert(by * st <= y * st) by (nonlinear_arith)
                requires
                    by <= y,
                    0 <= st,
            ;
        } else {
            lemma_row_fits(y, by, st);
        }
    }
}

/// How many text rows the console advances by when it runs out of rows: all but one
/// of those there are, eight at most, and one at least.
pub open spec fn rows_at_once(s: Screen) -> int {
    let rows = s.height / s.char_height;
    if rows > 8 {
        8
    } else if rows > 2 {
        rows - 1
    } else {
        1
    }
}

proof fn lemma_rows_at_once(s: Screen)
    requires
        s.wf(),
        s.char_height < s.height,
    ensures
        s.scroll_shift(s.char_height) == rows_at_once(s) * s.char_height,
        0 < rows_at_once(s) * s.char_height < s.height,
{
    let (h, ch, k) = (s.height, s.char_height, rows_at_once(s));
    let rows = h / ch;
    vstd::arithmetic::div_mod::lemma_fundamental_div_mod(h, ch);
    assert(rows >= 1) by (nonlinear_arith)
        requires
            h == ch * rows + h % ch,
            0 <= h % ch < ch,
            0 < ch < h,
    ;
    assert(ch * k == k * ch) by (nonlinear_arith);
    assert(0 < k * ch) by (nonlinear_arith)
        requires
            0 < k,
            0 < ch,
    ;
    if rows >= 2 {
        assert(k * ch < h) by (nonlinear_arith)
            requires
                h == ch * rows + h % ch,
                0 <= h % ch,
                k < rows,
                0 < ch,
        ;
    }
}

/// A line feed goes to the start of the next text row. Where there is none, the text
/// moves up by whole rows, and the cursor with it.
pub proof fn lemma_a_line_feed(s: Screen)
    requires
        at_rest(s),
        s.char_height < s.height,
        s.cursor_y + s.char_height <= s.height,
        s.cursor_y + s.char_height <= usize::MAX,
    ensures
        ({
            let t = s.putc(0x0a);
            let by = rows_at_once(s) * s.char_height;
            &&& same_look(s, t)
            &&& t.fg == s.fg
            &&& t.cursor_x == 0
            &&& s.cursor_y + 2 * s.char_height <= s.height ==> same_pixels(s, t) && t.cursor_y
                == s.cursor_y + s.char_height
            &&& s.cursor_y + 2 * s.char_height > s.height ==> moved_up(s, t, by) && t.cursor_y == (
            if s.cursor_y + s.char_height >= by {
                s.cursor_y + s.char_height - by
            } else {
                0
            })
        }),
{
    let n = s.next_line();
    let t = s.putc(0x0a);
    let by = rows_at_once(s) * s.char_height;
    assert(n.wf());
    assert forall|x: int, y: int| on_screen(s, x, y) implies #[trigger] n.at(x, y) == s.at(x, y)
        && (y + by < s.height ==> n.at(x, y + by) == s.at(x, y + by)) by {}
    if s.cursor_y + 2 * s.char_height > s.height {
        lemma_rows_at_once(n);
        lemma_scrolling_moves_the_pixels(n, by);
        assert(t == n.scroll(by));
        assert forall|x: int, y: int| on_screen(s, x, y) implies #[trigger] t.at(x, y) == (if y + by
            < s.height {
            s.at(x, y + by)
        } else {
            0
        }) by {}
    } else {
        assert(t == n);
    }
}

/// A carriage return goes to the start of the text row and changes nothing else.
pub proof fn lemma_a_carriage_return(s: Screen)
    requires
        at_rest(s),
        s.cursor_y + s.char_height <= s.height,
    ensures
        s.putc(0x0d) == (Screen { cursor_x: 0, ..s }),
{
}

/// A backspace blanks the cell before the cursor and goes there. At the start of a
/// row that is the last whole cell of the row above; in the first cell of the screen
/// there is none, and nothing happens. Every other pixel is as it was.
pub proof fn lemma_a_backspace(s: Screen)
    requires
        at_rest(s),
        cell_fits(s),
    ensures
        ({
            let t = s.putc(0x08);
            let within = s.cursor_x >= s.char_width;
            let back_x = if within {
                s.cursor_x - s.char_width
            } else {
                (s.width / s.char_width - 1) * s.char_width
            };
            let back_y = if within {
                s.cursor_y
            } else {
                s.cursor_y - s.char_height
            };
            &&& same_look(s, t)
            &&& t.fg == s.fg
            &&& !within && s.cursor_y < s.char_height ==> t == s
            &&& within || s.cursor_y >= s.char_height ==> {
                &&& t.cursor_x == back_x
                &&& t.cursor_y == back_y
                &&& forall|x: int, y: int|
                    on_screen(s, x, y) ==> #[trigger] t.at(x, y) == (if back_x <= x < back_x
                        + s.char_width && back_y <= y < back_y + s.char_height {
                        0
                    } else {
                        s.at(x, y)
                    })
            }
        }),
{
    let (cw, ch) = (s.char_width, s.char_height);
    let t = s.putc(0x08);
    lemma_has_cells(s);
    if s.cursor_x >= cw || s.cursor_y >= ch {
        let m = if s.cursor_x >= cw {
            Screen { cursor_x: s.cursor_x - cw, ..s }
        } else {
            Screen { cursor_x: (s.cols() - 1) * cw, cursor_y: s.cursor_y - ch, ..s }
        };
        assert(0 <= (s.cols() - 1) * cw <= usize::MAX) by {
            crate::grid::lemma_cells_fit(s.width, cw, s.cols() - 1);
        }
        lemma_a_filled_rectangle(m, m.cursor_x, m.cursor_y, cw, ch, 0);
        let f = m.fill_rect(m.cursor_x, m.cursor_y, cw, ch, 0);
        assert(t == f);
        assert forall|x: int, y: int| on_screen(s, x, y) implies #[trigger] m.at(x, y) == s.at(
            x,
            y,
        ) by {}
    }
}

/// Clearing gives every pixel of the screen one colour and homes the cursor.
pub proof fn lemma_clearing_the_screen(s: Screen, color: u32)
    requires
        s.wf(),
        s.ready,
    ensures
        s.clear(color).cursor_x == 0,
        s.clear(color).cursor_y == 0,
        forall|x: int, y: int| on_screen(s, x, y) ==> #[trigger] s.clear(color).at(x, y) == color,
{
    let t = s.clear(color);
    assert forall|x: int, y: int| on_screen(s, x, y) implies #[trigger] t.at(x, y) == color by {
        lemma_row_fits(y, s.height, s.stride());
    }
}

/// Setting a pixel changes that pixel alone, and nothing off the screen.
pub proof fn lemma_setting_a_pixel(s: Screen, x: int, y: int, color: u32)
    requires
        s.wf(),
        0 <= x,
        0 <= y,
    ensures
        s.set_pixel(x, y, color).wf(),
        same_look(s, s.set_pixel(x, y, color)),
        forall|px: int, py: int|
            on_screen(s, px, py) ==> #[trigger] s.set_pixel(x, y, color).at(px, py) == (if px == x
                && py == y {
                color
            } else {
                s.at(px, py)
            }),
{
    let t = s.set_pixel(x, y, color);
    if on_screen(s, x, y) {
        lemma_row_fits(y, s.height, s.stride());
        assert(0 <= s.index(x, y) < s.pixels.len());
    }
    assert forall|px: int, py: int| on_screen(s, px, py) implies #[trigger] t.at(px, py) == (if px
        == x && py == y {
        color
    } else {
        s.at(px, py)
    }) by {
        lemma_row_fits(py, s.height, s.stride());
        if on_screen(s, x, y) {
            lemma_row_fits(y, s.height, s.stride());
            lemma_word(s.index(px, py), py, px, s.stride());
            lemma_word(s.index(x, y), y, x, s.stride());
        }
    }
}

/// ESC M goes up one text row; in the topmost one the text moves down by a row
/// instead, and the cursor stays.
pub proof fn lemma_going_up_a_row(s: Screen)
    requires
        at_rest(s),
        s.char_height < s.height,
    ensures
        ({
            let t = s.putc(0x1b).putc(0x4d);
            &&& t.esc == EscState::Ground
            &&& t.cursor_x == s.cursor_x
            &&& s.cursor_y >= s.char_height ==> t.cursor_y == s.cursor_y - s.char_height
                && t.pixels == s.pixels
            &&& s.cursor_y < s.char_height ==> t.cursor_y == s.cursor_y && moved_down(
                s,
                t,
                s.char_height,
            )
        }),
{
    let g = Screen { params: Seq::empty(), ..s };
    assert((Screen { esc: EscState::Ground, ..s.putc(0x1b) }) =~= g);
    let t = s.putc(0x1b).putc(0x4d);
    assert(t == g.reverse_index());
    if s.cursor_y < s.char_height {
        lemma_scrolling_moves_the_pixels(g, s.char_height);
        assert forall|x: int, y: int| on_screen(s, x, y) implies #[trigger] t.at(x, y) == (if y
            >= s.char_height {
            s.at(x, y - s.char_height)
        } else {
            0
        }) by {}
    }
}

/// A title or any other such string is swallowed up to its end: the screen, the
/// cursor and the colour are as they were.
pub proof fn lemma_a_string_is_swallowed(s: Screen, bytes: Seq<u8>)
    requires
        at_rest(s),
        forall|i: int|
            0 <= i < bytes.len() ==> #[trigger] bytes[i] != 0x07 && bytes[i] != 0x1b,
    ensures
        s.putc(0x1b).putc(0x5d).puts(bytes).putc(0x07) == (Screen { params: Seq::empty(), ..s }),
        s.putc(0x1b).putc(0x5d).puts(bytes).putc(0x1b).putc(0x5c) == (Screen {
            params: Seq::empty(),
            ..s
        }),
{
    let o = Screen { esc: EscState::Osc, params: Seq::empty(), ..s };
    assert(s.putc(0x1b).putc(0x5d) =~= o);
    lemma_swallowing(o, bytes);
    assert(o.putc(0x07) =~= (Screen { params: Seq::empty(), ..s }));
    assert(o.putc(0x1b).putc(0x5c) =~= (Screen { params: Seq::empty(), ..s }));
}

proof fn lemma_swallowing(o: Screen, bytes: Seq<u8>)
    requires
        o.esc == EscState::Osc,
        o.ready,
        forall|i: int|
            0 <= i < bytes.len() ==> #[trigger] bytes[i] != 0x07 && bytes[i] != 0x1b,
    ensures
        o.puts(bytes) == o,
    decreases bytes.len(),
{
    if bytes.len() > 0 {
        lemma_swallowing(o, bytes.drop_last());
        assert(bytes.last() == bytes[bytes.len() - 1]);
    }
}

/// A code point in UTF-8.
pub open spec fn encoded(code: u32) -> Seq<u8> {
    let tail = (0x80 + code % 64) as u8;
    if code < 0x800 {
        seq![(0xC0 + code / 64) as u8, tail]
    } else if code < 0x1_0000 {
        seq![(0xE0 + code / 4096) as u8, (0x80 + code / 64 % 64) as u8, tail]
    } else {
        seq![
            (0xF0 + code / 262144) as u8,
            (0x80 + code / 4096 % 64) as u8,
            (0x80 + code / 64 % 64) as u8,
            tail,
        ]
    }
}

/// The picture for a code point outside ASCII: double box drawing and the full block
/// have one, anything else is shown as a question mark.
pub open spec fn picture(code: u32) -> u8 {
    if code == 0x2550 {
        1
    } else if code == 0x2551 {
        2
    } else if code == 0x2554 {
        3
    } else if code == 0x2557 {
        4
    } else if code == 0x255A {
        5
    } else if code == 0x255D {
        6
    } else if code == 0x2569 {
        7
    } else if code == 0x2566 {
        8
    } else if code == 0x2560 {
        9
    } else if code == 0x2563 {
        10
    } else if code == 0x2588 {
        11
    } else {
        0x3f
    }
}

/// A continuation byte.
proof fn lemma_continuation(c: u8, sofar: u32, low: u32)
    requires
        low < 64,
        c == 0x80 + low,
        sofar < 0x8000,
    ensures
        c & 0xE0 != 0xC0,
        c & 0xF0 != 0xE0,
        c & 0xF8 != 0xF0,
        c & 0xC0 == 0x80,
        (sofar << 6) | (c & 0x3F) as u32 == sofar * 64 + low,
{
    assert(c & 0xE0 != 0xC0 && c & 0xF0 != 0xE0 && c & 0xF8 != 0xF0 && c & 0xC0 == 0x80 && (sofar
        << 6) | (c & 0x3F) as u32 == sofar * 64 + low) by (bit_vector)
        requires
            low < 64,
            c == 0x80 + low,
            sofar < 0x8000,
    ;
}

/// A lead byte.
proof fn lemma_lead(c: u8, high: u8)
    ensures
        2 <= high < 0x20 && c == 0xC0 + high ==> c & 0xE0 == 0xC0 && c & 0x1F == high,
        high < 0x10 && c == 0xE0 + high ==> c & 0xE0 != 0xC0 && c & 0xF0 == 0xE0 && c & 0x0F
            == high,
        high < 0x08 && c == 0xF0 + high ==> c & 0xE0 != 0xC0 && c & 0xF0 != 0xE0 && c & 0xF8
            == 0xF0 && c & 0x07 == high,
{
    assert((2 <= high < 0x20 && c == 0xC0 + high ==> c & 0xE0 == 0xC0 && c & 0x1F == high) && (high
        < 0x10 && c == 0xE0 + high ==> c & 0xE0 != 0xC0 && c & 0xF0 == 0xE0 && c & 0x0F == high) && (
    high < 0x08 && c == 0xF0 + high ==> c & 0xE0 != 0xC0 && c & 0xF0 != 0xE0 && c & 0xF8 == 0xF0
        && c & 0x07 == high)) by (bit_vector);
}

/// A continuation byte that is not the last one only adds to the code point.
proof fn lemma_more_to_come(s: Screen, c: u8, low: u32)
    requires
        at_rest(s),
        cell_fits(s),
        s.utf8.0 > 1,
        low < 64,
        c == 0x80 + low,
        s.utf8.1 < 0x8000,
    ensures
        s.putc(c) == (Screen { utf8: (s.utf8.0 - 1, (s.utf8.1 * 64 + low) as u32), ..s }),
{
    lemma_continuation(c, s.utf8.1, low);
}

/// The last continuation byte shows the character.
proof fn lemma_last_byte(s: Screen, c: u8, low: u32)
    requires
        at_rest(s),
        cell_fits(s),
        s.cursor_x + 2 * s.char_width <= s.width,
        s.utf8.0 == 1,
        low < 64,
        c == 0x80 + low,
        s.utf8.1 < 0x8000,
    ensures
        ({
            let t = s.putc(c);
            let code = (s.utf8.1 * 64 + low) as u32;
            &&& same_look(s, t)
            &&& t.fg == s.fg
            &&& t.cursor_x == s.cursor_x + s.char_width
            &&& t.cursor_y == s.cursor_y
            &&& cell_drawn(s, t, s.cursor_x, s.cursor_y, picture(code), s.fg)
        }),
{
    lemma_continuation(c, s.utf8.1, low);
    let code = (s.utf8.1 * 64 + low) as u32;
    let fresh = Screen { utf8: (0, 0), ..s };
    let m = crate::screen::mapped(code);
    assert(m as u8 == picture(code) && (m as u32) < 256);
    lemma_written(fresh, m);
    let w = fresh.write_char(m);
    let t = s.putc(c);
    assert(t == w);
    assert forall|px: int, py: int| on_screen(s, px, py) implies #[trigger] fresh.at(px, py) == s.at(
        px,
        py,
    ) by {}
}

/// What was drawn on one console was drawn on another with the same pixels.
proof fn lemma_same_start(s: Screen, m: Screen, t: Screen, code: u8)
    requires
        m == (Screen { utf8: m.utf8, ..s }),
        cell_drawn(m, t, m.cursor_x, m.cursor_y, code, m.fg),
    ensures
        cell_drawn(s, t, s.cursor_x, s.cursor_y, code, s.fg),
{
    assert forall|px: int, py: int| on_screen(s, px, py) implies #[trigger] t.at(px, py) == (if !(
    s.cursor_x <= px < s.cursor_x + s.char_width && s.cursor_y <= py < s.cursor_y
        + s.char_height) {
        s.at(px, py)
    } else if ink(code, px - s.cursor_x, py - s.cursor_y) {
        s.fg
    } else {
        0
    }) by {
        assert(m.at(px, py) == s.at(px, py));
    }
}

/// One byte of output, to be taken as a whole.
#[verifier::opaque]
spec fn byte(s: Screen, c: u8) -> Screen {
    s.putc(c)
}

/// A run of output, to be taken as a whole.
#[verifier::opaque]
spec fn run(s: Screen, bytes: Seq<u8>) -> Screen {
    s.puts(bytes)
}

/// A continuation byte in the middle of a code point.
proof fn lemma_middle_byte(s: Screen, c: u8, low: u32)
    requires
        at_rest(s),
        cell_fits(s),
        s.utf8.0 > 1,
        low < 64,
        c == 0x80 + low,
        s.utf8.1 < 0x8000,
    ensures
        byte(s, c) == (Screen { utf8: (s.utf8.0 - 1, (s.utf8.1 * 64 + low) as u32), ..s }),
{
    reveal(byte);
    lemma_more_to_come(s, c, low);
}

/// A lead byte only starts a code point.
proof fn lemma_lead_byte(s: Screen, c: u8, high: u8, more: int)
    requires
        at_rest(s),
        cell_fits(s),
        more == 1 ==> 2 <= high < 0x20 && c == 0xC0 + high,
        more == 2 ==> high < 0x10 && c == 0xE0 + high,
        more == 3 ==> high < 0x08 && c == 0xF0 + high,
        1 <= more <= 3,
    ensures
        byte(s, c) == (Screen { utf8: (more, high as u32), ..s }),
{
    reveal(byte);
    lemma_lead(c, high);
}

/// A character is shown where the cursor of `s` is, in the colour of text, and the
/// cursor has gone on by one cell.
pub open spec fn shown(s: Screen, t: Screen, code: u8) -> bool {
    &&& same_look(s, t)
    &&& t.fg == s.fg
    &&& t.cursor_x == s.cursor_x + s.char_width
    &&& t.cursor_y == s.cursor_y
    &&& cell_drawn(s, t, s.cursor_x, s.cursor_y, code, s.fg)
}

/// The end of a code point, from a console that differs only in what it has read of
/// it.
proof fn lemma_ends(s: Screen, m: Screen, c: u8, high: u32, low: u32)
    requires
        at_rest(s),
        cell_fits(s),
        s.cursor_x + 2 * s.char_width <= s.width,
        m == (Screen { utf8: (1, high), ..s }),
        low < 64,
        c == 0x80 + low,
        high < 0x8000,
    ensures
        shown(s, byte(m, c), picture((high * 64 + low) as u32)),
{
    reveal(byte);
    lemma_last_byte(m, c, low);
    lemma_same_start(s, m, m.putc(c), picture((high * 64 + low) as u32));
}

/// A code point outside ASCII that is written in UTF-8 is shown in the cursor's cell
/// by its one picture once its last byte has come, and the cursor goes on by one
/// cell.
pub proof fn lemma_utf8_is_decoded(s: Screen, code: u32)
    requires
        at_rest(s),
        cell_fits(s),
        s.cursor_x + 2 * s.char_width <= s.width,
        0x80 <= code < 0x11_0000,
    ensures
        shown(s, s.puts(encoded(code)), picture(code)),
{
    reveal(run);
    if code < 0x800 {
        lemma_two_bytes(s, code);
    } else if code < 0x1_0000 {
        lemma_three_bytes(s, code);
    } else {
        lemma_four_bytes(s, code);
    }
}

#[verifier::spinoff_prover]
proof fn lemma_two_bytes(s: Screen, code: u32)
    requires
        at_rest(s),
        cell_fits(s),
        s.cursor_x + 2 * s.char_width <= s.width,
        0x80 <= code < 0x800,
    ensures
        shown(s, run(s, encoded(code)), picture(code)),
{
    let b = encoded(code);
    lemma_two(s, b);
    lemma_lead_byte(s, b[0], (code / 64) as u8, 1);
    lemma_ends(s, byte(s, b[0]), b[1], code / 64, code % 64);
    assert(code / 64 * 64 + code % 64 == code);
}

#[verifier::spinoff_prover]
proof fn lemma_three_bytes(s: Screen, code: u32)
    requires
        at_rest(s),
        cell_fits(s),
        s.cursor_x + 2 * s.char_width <= s.width,
        0x800 <= code < 0x1_0000,
    ensures
        shown(s, run(s, encoded(code)), picture(code)),
{
    let b = encoded(code);
    lemma_three(s, b);
    lemma_lead_byte(s, b[0], (code / 4096) as u8, 2);
    let s1 = byte(s, b[0]);
    lemma_middle_byte(s1, b[1], code / 64 % 64);
    assert(code / 4096 * 64 + code / 64 % 64 == code / 64);
    lemma_ends(s, byte(s1, b[1]), b[2], code / 64, code % 64);
    assert(code / 64 * 64 + code % 64 == code);
}

#[verifier::spinoff_prover]
proof fn lemma_four_bytes(s: Screen, code: u32)
    requires
        at_rest(s),
        cell_fits(s),
        s.cursor_x + 2 * s.char_width <= s.width,
        0x1_0000 <= code < 0x11_0000,
    ensures
        shown(s, run(s, encoded(code)), picture(code)),
{
    let b = encoded(code);
    lemma_four(s, b);
    lemma_lead_byte(s, b[0], (code / 262144) as u8, 3);
    let s1 = byte(s, b[0]);
    lemma_middle_byte(s1, b[1], code / 4096 % 64);
    assert(code / 262144 * 64 + code / 4096 % 64 == code / 4096);
    let s2 = byte(s1, b[1]);
    lemma_middle_byte(s2, b[2], code / 64 % 64);
    assert(code / 4096 * 64 + code / 64 % 64 == code / 64);
    lemma_ends(s, byte(s2, b[2]), b[3], code / 64, code % 64);
    assert(code / 64 * 64 + code % 64 == code);
}

proof fn lemma_two(s: Screen, b: Seq<u8>)
    requires
        b.len() == 2,
    ensures
        run(s, b) == byte(byte(s, b[0]), b[1]),
{
    reveal(byte);
    reveal(run);
    let a = b.drop_last();
    assert(a.drop_last() =~= Seq::empty());
    reveal_with_fuel(Screen::puts, 3);
}

proof fn lemma_three(s: Screen, b: Seq<u8>)
    requires
        b.len() == 3,
    ensures
        run(s, b) == byte(byte(byte(s, b[0]), b[1]), b[2]),
{
    lemma_two(s, b.drop_last());
    reveal(byte);
    reveal(run);
}

proof fn lemma_four(s: Screen, b: Seq<u8>)
    requires
        b.len() == 4,
    ensures
        run(s, b) == byte(byte(byte(byte(s, b[0]), b[1]), b[2]), b[3]),
{
    lemma_three(s, b.drop_last());
    reveal(byte);
    reveal(run);
}

} // verus!
