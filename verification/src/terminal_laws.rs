//! What output does to the cells and the cursor of a terminal.
use crate::terminal::Terminal;
use vstd::prelude::*;

verus! {

/// Cell (`x`, `y`) is on the terminal's grid.
pub open spec fn on_grid(t: Terminal, x: int, y: int) -> bool {
    0 <= x < t.cols() && 0 <= y < t.rows()
}

/// Cell (`x`, `y`) shows `c` in `color`.
pub open spec fn shows(t: Terminal, x: int, y: int, c: u8, color: u32) -> bool {
    t.chars[y][x] == c && t.colors[y][x] == color
}

/// Cell (`x`, `y`) of `u` is as cell (`v`, `w`) of `t`.
pub open spec fn as_cell(u: Terminal, x: int, y: int, t: Terminal, v: int, w: int) -> bool {
    shows(u, x, y, t.chars[w][v], t.colors[w][v])
}

/// The grids have the same size.
pub open spec fn same_size(u: Terminal, t: Terminal) -> bool {
    u.rows() == t.rows() && u.cols() == t.cols()
}

/// A cell is empty: a blank in the colour of text.
pub open spec fn empty(t: Terminal, x: int, y: int) -> bool {
    shows(t, x, y, 0x20, 0xFFFFFF)
}

/// Bytes that leave a character in a cell: a space to a tilde.
pub open spec fn printable(c: u8) -> bool {
    0x20 <= c <= 0x7e
}

/// A printable byte, written anywhere but in the last column, stands where the
/// cursor was, in the colour of text; the cursor is one column further, and
/// every other cell is as it was.
pub proof fn lemma_printing_fills_the_cell(t: Terminal, c: u8)
    requires
        t.wf(),
        t.cursor_in_grid(),
        t.cursor_x + 1 < t.cols(),
        printable(c),
    ensures
        ({
            let u = t.put(c);
            &&& u.wf()
            &&& same_size(u, t)
            &&& u.cursor_x == t.cursor_x + 1
            &&& u.cursor_y == t.cursor_y
            &&& shows(u, t.cursor_x, t.cursor_y, c, 0xFFFFFF)
            &&& forall|x: int, y: int|
                on_grid(t, x, y) && !(x == t.cursor_x && y == t.cursor_y) ==> #[trigger] as_cell(
                    u,
                    x,
                    y,
                    t,
                    x,
                    y,
                )
        }),
{
    assert(t.chars[t.cursor_y].len() == t.cols());
    assert(t.colors[t.cursor_y].len() == t.cols());
}

/// A printable byte in the last column is written there too. The cursor then goes
/// to the start of the next row, or, from the last row, the text moves up.
pub proof fn lemma_printing_wraps_at_the_edge(t: Terminal, c: u8)
    requires
        t.wf(),
        t.cursor_in_grid(),
        t.cursor_x + 1 == t.cols(),
        printable(c),
    ensures
        ({
            let u = t.put(c);
            let up: int = if t.cursor_y + 1 < t.rows() {
                0
            } else {
                1
            };
            &&& u.wf()
            &&& same_size(u, t)
            &&& u.cursor_x == 0
            &&& u.cursor_y == t.cursor_y + 1 - up
            &&& t.cursor_y >= up ==> shows(u, t.cursor_x, t.cursor_y - up, c, 0xFFFFFF)
            &&& forall|x: int, y: int|
                on_grid(t, x, y) && up <= y && !(x == t.cursor_x && y == t.cursor_y)
                    ==> #[trigger] as_cell(u, x, y - up, t, x, y)
            &&& up == 1 ==> forall|x: int|
                0 <= x < t.cols() ==> #[trigger] empty(u, x, t.rows() - 1)
        }),
{
    assert(t.chars[t.cursor_y].len() == t.cols());
    assert(t.colors[t.cursor_y].len() == t.cols());
    let d = t.write_char(t.cursor_x, t.cursor_y, c, 0xFFFFFF);
    assert(d.cols() == t.cols());
    lemma_next_line(Terminal { cursor_x: d.cursor_x + 1, ..d });
}

/// What starting a new line does.
proof fn lemma_next_line(t: Terminal)
    requires
        (Terminal { cursor_x: 0, ..t }).wf(),
        t.rows() > 0,
        t.cursor_y < t.rows(),
    ensures
        ({
            let u = t.new_line();
            let up: int = if t.cursor_y + 1 < t.rows() {
                0
            } else {
                1
            };
            &&& u.wf()
            &&& same_size(u, t)
            &&& u.cursor_x == 0
            &&& u.cursor_y == t.cursor_y + 1 - up
            &&& forall|x: int, y: int|
                on_grid(t, x, y) && up <= y ==> #[trigger] as_cell(u, x, y - up, t, x, y)
            &&& up == 1 ==> forall|x: int|
                0 <= x < t.cols() ==> #[trigger] empty(u, x, t.rows() - 1)
        }),
{
    if t.rows() > 1 {
        assert(t.chars[1].len() == t.cols());
    }
}

/// A line feed goes to the start of the next row and touches no cell; on the last
/// row every row shows what was below it instead, and the last one is empty.
pub proof fn lemma_line_feed_starts_the_next_row(t: Terminal)
    requires
        t.wf(),
        t.cursor_in_grid(),
    ensures
        ({
            let u = t.put(0x0a);
            let up: int = if t.cursor_y + 1 < t.rows() {
                0
            } else {
                1
            };
            &&& u.wf()
            &&& same_size(u, t)
            &&& u.cursor_x == 0
            &&& u.cursor_y == t.cursor_y + 1 - up
            &&& forall|x: int, y: int|
                on_grid(t, x, y) && up <= y ==> #[trigger] as_cell(u, x, y - up, t, x, y)
            &&& up == 1 ==> forall|x: int|
                0 <= x < t.cols() ==> #[trigger] empty(u, x, t.rows() - 1)
        }),
{
    lemma_next_line(t);
}

/// A carriage return goes to the start of the row and touches no cell.
pub proof fn lemma_carriage_return_goes_to_the_first_column(t: Terminal)
    ensures
        t.put(0x0d).cursor_x == 0,
        t.put(0x0d).cursor_y == t.cursor_y,
        t.put(0x0d).chars == t.chars,
        t.put(0x0d).colors == t.colors,
{
}

/// A tab goes to the next column that is a multiple of eight and touches no cell;
/// where the row ends before it, a new line starts as after a line feed.
pub proof fn lemma_tab_goes_to_the_next_stop(t: Terminal, stop: int)
    requires
        t.wf(),
        t.cursor_in_grid(),
        t.cursor_x < stop <= t.cursor_x + 8,
        stop % 8 == 0,
    ensures
        stop < t.cols() ==> {
            &&& t.put(0x09).cursor_x == stop
            &&& t.put(0x09).cursor_y == t.cursor_y
            &&& t.put(0x09).chars == t.chars
            &&& t.put(0x09).colors == t.colors
        },
        t.cols() <= stop ==> t.put(0x09) == t.put(0x0a),
{
    assert((t.cursor_x + 8) / 8 * 8 == stop);
}

/// A backspace empties the cell before the cursor and goes there; in the first
/// column it does nothing. Every other cell is as it was.
pub proof fn lemma_backspace_takes_back_one_cell(t: Terminal)
    requires
        t.wf(),
        t.cursor_in_grid(),
    ensures
        ({
            let u = t.put(0x08);
            &&& same_size(u, t)
            &&& u.cursor_y == t.cursor_y
            &&& t.cursor_x == 0 ==> u.cursor_x == 0 && u.chars == t.chars && u.colors == t.colors
            &&& t.cursor_x > 0 ==> {
                &&& u.cursor_x == t.cursor_x - 1
                &&& empty(u, t.cursor_x - 1, t.cursor_y)
                &&& forall|x: int, y: int|
                    on_grid(t, x, y) && !(x == t.cursor_x - 1 && y == t.cursor_y)
                        ==> #[trigger] as_cell(u, x, y, t, x, y)
            }
        }),
{
    assert(t.chars[t.cursor_y].len() == t.cols());
    assert(t.colors[t.cursor_y].len() == t.cols());
}

/// A backspace after a printable byte brings the cursor back to where the byte was
/// written, and that cell is empty.
pub proof fn lemma_backspace_undoes_printing(t: Terminal, c: u8)
    requires
        t.wf(),
        t.cursor_in_grid(),
        t.cursor_x + 1 < t.cols(),
        printable(c),
    ensures
        t.put(c).put(0x08).cursor_x == t.cursor_x,
        t.put(c).put(0x08).cursor_y == t.cursor_y,
        empty(t.put(c).put(0x08), t.cursor_x, t.cursor_y),
{
    lemma_printing_fills_the_cell(t, c);
    lemma_backspace_takes_back_one_cell(t.put(c));
}

/// Any other byte changes neither the cells nor the cursor.
pub proof fn lemma_other_bytes_do_nothing(t: Terminal, c: u8)
    requires
        !printable(c),
        c != 0x0a,
        c != 0x0d,
        c != 0x09,
        c != 0x08,
    ensures
        t.put(c).chars == t.chars,
        t.put(c).colors == t.colors,
        t.put(c).cursor_x == t.cursor_x,
        t.put(c).cursor_y == t.cursor_y,
{
}

/// Any output makes the terminal one to be shown again.
pub proof fn lemma_output_is_to_be_shown(t: Terminal, c: u8)
    ensures
        t.put(c).dirty,
{
}

/// A run of printable bytes that fits into the rest of its row reads back from the
/// row byte by byte; the cursor stands behind it, and every other cell is as it
/// was.
pub proof fn lemma_a_run_reads_back(t: Terminal, bytes: Seq<u8>)
    requires
        t.wf(),
        t.cursor_in_grid(),
        t.cursor_x + bytes.len() < t.cols(),
        forall|i: int| 0 <= i < bytes.len() ==> printable(#[trigger] bytes[i]),
    ensures
        ({
            let u = t.puts(bytes);
            &&& u.wf()
            &&& same_size(u, t)
            &&& u.cursor_x == t.cursor_x + bytes.len()
            &&& u.cursor_y == t.cursor_y
            &&& forall|i: int|
                0 <= i < bytes.len() ==> shows(
                    u,
                    t.cursor_x + i,
                    t.cursor_y,
                    #[trigger] bytes[i],
                    0xFFFFFF,
                )
            &&& forall|x: int, y: int|
                on_grid(t, x, y) && !(y == t.cursor_y && t.cursor_x <= x < t.cursor_x + bytes.len())
                    ==> #[trigger] as_cell(u, x, y, t, x, y)
        }),
    decreases bytes.len(),
{
    if bytes.len() > 0 {
        let less = bytes.drop_last();
        let m = t.puts(less);
        assert forall|i: int| 0 <= i < less.len() implies printable(#[trigger] less[i]) by {
            assert(less[i] == bytes[i]);
        }
        lemma_a_run_reads_back(t, less);
        lemma_printing_fills_the_cell(m, bytes.last());
        let u = t.puts(bytes);
        assert forall|i: int| 0 <= i < bytes.len() implies shows(
            u,
            t.cursor_x + i,
            t.cursor_y,
            #[trigger] bytes[i],
            0xFFFFFF,
        ) by {
            if i < less.len() {
                assert(less[i] == bytes[i]);
                assert(as_cell(u, t.cursor_x + i, t.cursor_y, m, t.cursor_x + i, t.cursor_y));
            }
        }
        assert forall|x: int, y: int|
            on_grid(t, x, y) && !(y == t.cursor_y && t.cursor_x <= x < t.cursor_x
                + bytes.len()) implies #[trigger] as_cell(u, x, y, t, x, y) by {
            assert(as_cell(m, x, y, t, x, y));
            assert(as_cell(u, x, y, m, x, y));
        }
    }
}

/// Clearing leaves a blank of the given colour in every cell, and the cursor in the
/// first one.
pub proof fn lemma_clearing_empties_every_cell(t: Terminal, color: u32)
    requires
        t.wf(),
    ensures
        t.clear(color).rows() == t.rows(),
        t.clear(color).cursor_x == 0,
        t.clear(color).cursor_y == 0,
        forall|x: int, y: int|
            on_grid(t, x, y) ==> #[trigger] shows(t.clear(color), x, y, 0x20, color),
{
}

} // verus!
