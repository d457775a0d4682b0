//! What control sequences do to the pixels, the cursor and the colour of the
//! console, told from the bytes that are written.
use crate::grid::{lemma_row_fits, lemma_word};
use crate::screen::{
    is_private, level, max, min, number, numbers, rgb, scan_numbers, sgr, xterm256, EscState, Screen,
};
use vstd::prelude::*;

verus! {

/// A console that shows at least one cell and is not inside a sequence.
pub open spec fn at_rest(s: Screen) -> bool {
    &&& s.wf()
    &&& s.ready
    &&& s.esc == EscState::Ground
    &&& s.char_width <= s.width
    &&& s.char_height <= s.height
}

/// Pixel (`x`, `y`) is on the screen.
pub open spec fn on_screen(s: Screen, x: int, y: int) -> bool {
    0 <= x < s.width && 0 <= y < s.height
}

/// A number in decimal, as it is typed.
pub open spec fn digits(n: nat) -> Seq<u8>
    decreases n,
{
    if n < 10 {
        seq![(48 + n) as u8]
    } else {
        digits(n / 10).push((48 + n % 10) as u8)
    }
}

/// A parameter that may be left out.
pub open spec fn typed(n: Option<nat>) -> Seq<u8> {
    match n {
        Some(n) => digits(n),
        None => Seq::empty(),
    }
}

/// The console after ESC, an opening bracket, the parameters and the final byte.
#[verifier::opaque]
pub open spec fn sequence(s: Screen, params: Seq<u8>, op: u8) -> Screen {
    s.putc(0x1b).putc(0x5b).puts(params).putc(op)
}

/// The console keeps its surface, its font and its colour.
pub open spec fn same_look(s: Screen, t: Screen) -> bool {
    &&& t.ready == s.ready
    &&& t.width == s.width
    &&& t.height == s.height
    &&& t.pitch == s.pitch
    &&& t.char_width == s.char_width
    &&& t.char_height == s.char_height
}

/// Bytes that are collected as parameters.
proof fn lemma_collecting(s: Screen, params: Seq<u8>)
    requires
        s.ready,
        s.esc == EscState::Csi,
        s.params == Seq::<u8>::empty(),
        params.len() <= 32,
        forall|i: int| 0 <= i < params.len() ==> 0x20 <= #[trigger] params[i] <= 0x3f,
    ensures
        s.puts(params) == (Screen { params, ..s }),
    decreases params.len(),
{
    if params.len() > 0 {
        let less = params.drop_last();
        lemma_collecting(s, less);
        assert(params.last() == params[params.len() - 1]);
        assert(less.push(params.last()) =~= params);
        assert(s.puts(params) =~= (Screen { params, ..s }));
    } else {
        assert(params =~= s.params);
        assert(s.puts(params) =~= (Screen { params, ..s }));
    }
}

/// A whole sequence.
proof fn lemma_sequence(s: Screen, params: Seq<u8>, op: u8)
    requires
        at_rest(s),
        params.len() <= 32,
        forall|i: int| 0 <= i < params.len() ==> 0x20 <= #[trigger] params[i] <= 0x3f,
        0x40 <= op <= 0x7e,
    ensures
        sequence(s, params, op) == (Screen { params, ..s }).control(params, op),
{
    reveal(sequence);
    let open = s.putc(0x1b).putc(0x5b);
    assert(open =~= (Screen { esc: EscState::Csi, params: Seq::empty(), ..s }));
    lemma_collecting(open, params);
    let full = open.puts(params);
    assert((Screen { esc: EscState::Ground, ..full }) =~= (Screen { params, ..s }));
}

/// The digits of a number are digits, and few.
proof fn lemma_digits(n: nat)
    requires
        n < 1_000_000,
    ensures
        1 <= digits(n).len() <= 6,
        forall|i: int| 0 <= i < digits(n).len() ==> 0x30 <= #[trigger] digits(n)[i] <= 0x39,
{
    reveal_with_fuel(digits, 7);
}

/// Digits behind other parameters are read as the number they stand for.
proof fn lemma_digits_are_read(before: Seq<u8>, n: nat)
    requires
        n <= usize::MAX,
        scan_numbers(before).1 is None,
    ensures
        scan_numbers(before + digits(n)) == (scan_numbers(before).0, Some(n as int)),
    decreases n,
{
    let all = before + digits(n);
    let d = digits(n);
    if n < 10 {
        assert(all.drop_last() =~= before);
        assert(all.last() == (48 + n) as u8);
    } else {
        lemma_digits_are_read(before, n / 10);
        assert(all.drop_last() =~= before + digits(n / 10));
        assert(all.last() == (48 + n % 10) as u8);
    }
}

/// One number, or none, as the parameters give it.
proof fn lemma_one_number(n: Option<nat>)
    requires
        n matches Some(v) ==> v < 1_000_000,
    ensures
        numbers(typed(n)) == seq![
            match n {
                Some(v) => Some(v as int),
                None => None::<int>,
            },
        ],
        typed(n).len() <= 32,
        forall|i: int| 0 <= i < typed(n).len() ==> 0x20 <= #[trigger] typed(n)[i] <= 0x39,
{
    if let Some(v) = n {
        lemma_digits(v);
        lemma_digits_are_read(Seq::empty(), v);
        assert(Seq::<u8>::empty() + digits(v) =~= digits(v));
    }
    assert(numbers(typed(n)) =~= seq![
        match n {
            Some(v) => Some(v as int),
            None => None::<int>,
        },
    ]);
}

/// Numbers with semicolons between them.
pub open spec fn listed(ns: Seq<nat>) -> Seq<u8>
    decreases ns.len(),
{
    if ns.len() <= 1 {
        digits(ns.last())
    } else {
        listed(ns.drop_last()).push(0x3b) + digits(ns.last())
    }
}

/// The numbers of a list are read one by one.
proof fn lemma_list_is_read(ns: Seq<nat>)
    requires
        1 <= ns.len() <= 8,
        forall|i: int| 0 <= i < ns.len() ==> #[trigger] ns[i] < 1_000_000,
    ensures
        scan_numbers(listed(ns)) == (
            Seq::new((ns.len() - 1) as nat, |i: int| Some(ns[i] as int)),
            Some(ns.last() as int),
        ),
        numbers(listed(ns)) == Seq::new(ns.len(), |i: int| Some(ns[i] as int)),
        forall|i: int| 0 <= i < listed(ns).len() ==> 0x30 <= #[trigger] listed(ns)[i] <= 0x3b,
    decreases ns.len(),
{
    let all = Seq::new((ns.len() - 1) as nat, |i: int| Some(ns[i] as int));
    assert(ns.last() == ns[ns.len() - 1]);
    lemma_digits(ns.last());
    if ns.len() == 1 {
        lemma_digits_are_read(Seq::empty(), ns.last());
        assert(Seq::<u8>::empty() + digits(ns.last()) =~= digits(ns.last()));
        assert(scan_numbers(listed(ns)).0 =~= all);
    } else {
        let less = ns.drop_last();
        assert forall|i: int| 0 <= i < less.len() implies #[trigger] less[i] < 1_000_000 by {
            assert(less[i] == ns[i]);
        }
        lemma_list_is_read(less);
        let first = listed(less).push(0x3b);
        assert(first.drop_last() =~= listed(less));
        assert(scan_numbers(first).0 =~= all);
        lemma_digits_are_read(first, ns.last());
    }
    assert(numbers(listed(ns)) =~= Seq::new(ns.len(), |i: int| Some(ns[i] as int)));
}

/// A filled rectangle has its colour in every pixel that is on the screen, and every
/// other pixel is as it was.
pub proof fn lemma_a_filled_rectangle(s: Screen, x: int, y: int, w: int, h: int, color: u32)
    requires
        s.wf(),
        s.ready,
        0 <= x,
        0 <= y,
        0 <= w,
        0 <= h,
    ensures
        ({
            let t = s.fill_rect(x, y, w, h, color);
            &&& t.wf()
            &&& same_look(s, t)
            &&& forall|px: int, py: int|
                on_screen(s, px, py) ==> #[trigger] t.at(px, py) == (if x <= px < x + w && y <= py
                    < y + h {
                    color
                } else {
                    s.at(px, py)
                })
        }),
{
    let t = s.fill_rect(x, y, w, h, color);
    assert forall|px: int, py: int| on_screen(s, px, py) implies #[trigger] t.at(px, py) == (if x
        <= px < x + w && y <= py < y + h {
        color
    } else {
        s.at(px, py)
    }) by {
        lemma_row_fits(py, s.height, s.stride());
        lemma_word(s.index(px, py), py, px, s.stride());
        assert(0 <= s.index(px, py) < s.pixels.len());
    }
}

/// There is a column and a row of cells.
pub proof fn lemma_has_cells(s: Screen)
    requires
        at_rest(s),
    ensures
        s.cols() >= 1,
        s.rows() >= 1,
{
    assert(s.width / 12 >= 1 || s.width < 12);
    assert(s.width / 8 >= 1 || s.width < 8);
    assert(s.height / 20 >= 1 || s.height < 20);
    assert(s.height / 16 >= 1 || s.height < 16);
}

/// The number that a parameter stands for where zero is meant if it is left out.
pub open spec fn or_zero(n: Option<nat>) -> int {
    match n {
        Some(v) => v as int,
        None => 0,
    }
}

/// The number that a parameter stands for where one is meant if it is left out.
pub open spec fn or_one(n: Option<nat>) -> int {
    match n {
        Some(v) => v as int,
        None => 1,
    }
}

/// A sequence with one number, or none.
proof fn lemma_short_sequence(s: Screen, n: Option<nat>, op: u8)
    requires
        at_rest(s),
        n matches Some(v) ==> v < 1_000_000,
        0x40 <= op <= 0x7e,
    ensures
        sequence(s, typed(n), op) == (Screen { params: typed(n), ..s }).control(typed(n), op),
        number(numbers(typed(n)), 0, 0) == or_zero(n),
        number(numbers(typed(n)), 0, 1) == or_one(n),
        !is_private(typed(n)),
        typed(n).len() <= 32,
        s.cols() >= 1,
        s.rows() >= 1,
{
    lemma_one_number(n);
    lemma_sequence(s, typed(n), op);
    lemma_has_cells(s);
}

/// The cursor's text row blanked.
#[verifier::spinoff_prover]
proof fn lemma_line_blanked(s: Screen, mode: int)
    requires
        s.wf(),
        s.ready,
    ensures
        ({
            let t = s.erase_in_line(mode);
            &&& same_look(s, t)
            &&& t.fg == s.fg
            &&& forall|x: int, y: int|
                on_screen(s, x, y) ==> #[trigger] t.at(x, y) == (if s.cursor_y <= y < s.cursor_y
                    + s.char_height && (mode == 0 ==> s.cursor_x <= x) && (mode == 1 ==> x
                    < s.cursor_x) {
                    0
                } else {
                    s.at(x, y)
                })
        }),
{
    let (x, y, w, ch) = (s.cursor_x, s.cursor_y, s.width, s.char_height);
    if mode == 0 {
        lemma_a_filled_rectangle(s, x, y, w - min(x, w), ch, 0);
    } else if mode == 1 {
        lemma_a_filled_rectangle(s, 0, y, x, ch, 0);
    } else {
        lemma_a_filled_rectangle(s, 0, y, w, ch, 0);
    }
}

/// The display blanked.
#[verifier::spinoff_prover]
proof fn lemma_display_blanked(s: Screen, mode: int)
    requires
        s.wf(),
        s.ready,
    ensures
        ({
            let t = s.erase_in_display(mode);
            &&& same_look(s, t)
            &&& t.fg == s.fg
            &&& forall|x: int, y: int|
                on_screen(s, x, y) ==> #[trigger] t.at(x, y) == (if (mode == 0 ==> s.cursor_y
                    + s.char_height <= y || (s.cursor_y <= y && s.cursor_x <= x)) && (mode == 1
                    ==> y < s.cursor_y || (y < s.cursor_y + s.char_height && x < s.cursor_x)) {
                    0
                } else {
                    s.at(x, y)
                })
        }),
{
    let (x, y, w, h, ch) = (s.cursor_x, s.cursor_y, s.width, s.height, s.char_height);
    if mode == 0 {
        let row = s.fill_rect(x, y, w - min(x, w), ch, 0);
        lemma_a_filled_rectangle(s, x, y, w - min(x, w), ch, 0);
        lemma_a_filled_rectangle(row, 0, y + ch, w, max(h - (y + ch), 0), 0);
        assert forall|px: int, py: int| on_screen(s, px, py) implies #[trigger] s.erase_in_display(
            mode,
        ).at(px, py) == (if y + ch <= py || (y <= py && x <= px) {
            0
        } else {
            s.at(px, py)
        }) by {
            let under = row.at(px, py);
        }
    } else if mode == 1 {
        let above = s.fill_rect(0, 0, w, y, 0);
        lemma_a_filled_rectangle(s, 0, 0, w, y, 0);
        lemma_a_filled_rectangle(above, 0, y, x, ch, 0);
        assert forall|px: int, py: int| on_screen(s, px, py) implies #[trigger] s.erase_in_display(
            mode,
        ).at(px, py) == (if py < y || (py < y + ch && px < x) {
            0
        } else {
            s.at(px, py)
        }) by {
            let under = above.at(px, py);
        }
    } else {
        lemma_a_filled_rectangle(s, 0, 0, w, h, 0);
    }
}

/// What `CSI K` and `CSI J` come to.
#[verifier::spinoff_prover]
proof fn lemma_erasing(s: Screen, n: Option<nat>)
    requires
        at_rest(s),
        n matches Some(v) ==> v < 1_000_000,
    ensures
        sequence(s, typed(n), 0x4b) == (Screen { params: typed(n), ..s }).erase_in_line(
            or_zero(n),
        ).set_cell(s.col(), s.row()),
        sequence(s, typed(n), 0x4a) == (Screen { params: typed(n), ..s }).erase_in_display(
            or_zero(n),
        ).set_cell(s.col(), s.row()),
        typed(n).len() <= 32,
{
    lemma_short_sequence(s, n, 0x4b);
    lemma_short_sequence(s, n, 0x4a);
}

/// `CSI K` and `CSI 0 K` blank the cursor's text row from the cursor to its end,
/// `CSI 1 K` blanks it from its start up to the cursor, and with any other number
/// it is blanked whole. Every other pixel is as it was, and the cursor stays on its
/// cell.
pub proof fn lemma_erasing_in_the_line(s: Screen, n: Option<nat>)
    requires
        at_rest(s),
        n matches Some(v) ==> v < 1_000_000,
    ensures
        ({
            let t = sequence(s, typed(n), 0x4b);
            &&& same_look(s, t)
            &&& t.fg == s.fg
            &&& t.cursor_x == s.col() * s.char_width
            &&& t.cursor_y == s.row() * s.char_height
            &&& forall|x: int, y: int|
                on_screen(s, x, y) ==> #[trigger] t.at(x, y) == (if s.cursor_y <= y < s.cursor_y
                    + s.char_height && (if n is None || n == Some(0nat) {
                    s.cursor_x <= x
                } else if n == Some(1nat) {
                    x < s.cursor_x
                } else {
                    true
                }) {
                    0
                } else {
                    s.at(x, y)
                })
        }),
{
    let u = Screen { params: typed(n), ..s };
    let t = sequence(s, typed(n), 0x4b);
    let erased = u.erase_in_line(or_zero(n));
    lemma_erasing(s, n);
    lemma_line_blanked(u, or_zero(n));
    assert forall|x: int, y: int| on_screen(s, x, y) implies #[trigger] t.at(x, y) == erased.at(
        x,
        y,
    ) && u.at(x, y) == s.at(x, y) by {}
}

/// `CSI J` and `CSI 0 J` blank everything from the cursor on: the rest of its text
/// row and all that is below. `CSI 1 J` blanks everything before it: all that is
/// above its text row, and the row up to the cursor. With any other number the
/// whole screen is blanked. Every other pixel is as it was, and the cursor stays on
/// its cell.
pub proof fn lemma_erasing_in_the_display(s: Screen, n: Option<nat>)
    requires
        at_rest(s),
        n matches Some(v) ==> v < 1_000_000,
    ensures
        ({
            let t = sequence(s, typed(n), 0x4a);
            &&& same_look(s, t)
            &&& t.fg == s.fg
            &&& t.cursor_x == s.col() * s.char_width
            &&& t.cursor_y == s.row() * s.char_height
            &&& forall|x: int, y: int|
                on_screen(s, x, y) ==> #[trigger] t.at(x, y) == (if (if n is None || n == Some(
                    0nat,
                ) {
                    s.cursor_y + s.char_height <= y || (s.cursor_y <= y && s.cursor_x <= x)
                } else if n == Some(1nat) {
                    y < s.cursor_y || (y < s.cursor_y + s.char_height && x < s.cursor_x)
                } else {
                    true
                }) {
                    0
                } else {
                    s.at(x, y)
                })
        }),
{
    let u = Screen { params: typed(n), ..s };
    let t = sequence(s, typed(n), 0x4a);
    let erased = u.erase_in_display(or_zero(n));
    lemma_erasing(s, n);
    lemma_display_blanked(u, or_zero(n));
    assert forall|x: int, y: int| on_screen(s, x, y) implies #[trigger] t.at(x, y) == erased.at(
        x,
        y,
    ) && u.at(x, y) == s.at(x, y) by {}
}

/// Numbers of up to three digits take up to four bytes each.
proof fn lemma_list_is_short(ns: Seq<nat>)
    requires
        1 <= ns.len(),
        forall|i: int| 0 <= i < ns.len() ==> #[trigger] ns[i] < 1000,
    ensures
        listed(ns).len() <= 4 * ns.len(),
    decreases ns.len(),
{
    assert(ns.last() == ns[ns.len() - 1]);
    assert(digits(ns.last()).len() <= 3) by {
        reveal_with_fuel(digits, 4);
    }
    if ns.len() > 1 {
        let less = ns.drop_last();
        assert forall|i: int| 0 <= i < less.len() implies #[trigger] less[i] < 1000 by {
            assert(less[i] == ns[i]);
        }
        lemma_list_is_short(less);
    }
}

/// A sequence with a list of numbers.
proof fn lemma_long_sequence(s: Screen, ns: Seq<nat>, op: u8)
    requires
        at_rest(s),
        1 <= ns.len() <= 8,
        forall|i: int| 0 <= i < ns.len() ==> #[trigger] ns[i] < 1_000_000,
        listed(ns).len() <= 32,
        0x40 <= op <= 0x7e,
    ensures
        sequence(s, listed(ns), op) == (Screen { params: listed(ns), ..s }).control(listed(ns), op),
        numbers(listed(ns)) == Seq::new(ns.len(), |i: int| Some(ns[i] as int)),
        !is_private(listed(ns)),
        s.cols() >= 1,
        s.rows() >= 1,
{
    lemma_list_is_read(ns);
    lemma_sequence(s, listed(ns), op);
    lemma_has_cells(s);
}

/// The cursor is on the cell in column `col` and row `row`, and nothing else has
/// changed on the screen.
pub open spec fn only_moved(s: Screen, t: Screen, col: int, row: int) -> bool {
    &&& same_look(s, t)
    &&& t.pixels == s.pixels
    &&& t.fg == s.fg
    &&& t.saved == s.saved
    &&& t.cursor_x == col * s.char_width
    &&& t.cursor_y == row * s.char_height
}

/// The cursor is on a cell of the screen.
pub open spec fn cursor_on_cell(s: Screen) -> bool {
    s.col() < s.cols() && s.row() < s.rows()
}

/// `CSI n A` goes up and `CSI n B` down by `n` rows, as far as there are rows, in
/// the same column; `CSI n F` and `CSI n E` do the same and go to the first column.
/// A number that is left out counts as one.
pub proof fn lemma_moving_up_and_down(s: Screen, n: Option<nat>)
    requires
        at_rest(s),
        cursor_on_cell(s),
        n matches Some(v) ==> v < 1_000_000,
    ensures
        ({
            let by = or_one(n);
            let up = if by <= s.row() {
                s.row() - by
            } else {
                0
            };
            let down = if s.row() + by < s.rows() {
                s.row() + by
            } else {
                s.rows() - 1
            };
            &&& only_moved(s, sequence(s, typed(n), 0x41), s.col(), up)
            &&& only_moved(s, sequence(s, typed(n), 0x42), s.col(), down)
            &&& only_moved(s, sequence(s, typed(n), 0x45), 0, down)
            &&& only_moved(s, sequence(s, typed(n), 0x46), 0, up)
        }),
{
    lemma_short_sequence(s, n, 0x41);
    lemma_short_sequence(s, n, 0x42);
    lemma_short_sequence(s, n, 0x45);
    lemma_short_sequence(s, n, 0x46);
}

/// `CSI n C` goes right and `CSI n D` left by `n` columns, as far as there are
/// columns, in the same row. A number that is left out counts as one.
pub proof fn lemma_moving_right_and_left(s: Screen, n: Option<nat>)
    requires
        at_rest(s),
        cursor_on_cell(s),
        n matches Some(v) ==> v < 1_000_000,
    ensures
        ({
            let by = or_one(n);
            let left = if by <= s.col() {
                s.col() - by
            } else {
                0
            };
            let right = if s.col() + by < s.cols() {
                s.col() + by
            } else {
                s.cols() - 1
            };
            &&& only_moved(s, sequence(s, typed(n), 0x43), right, s.row())
            &&& only_moved(s, sequence(s, typed(n), 0x44), left, s.row())
        }),
{
    lemma_short_sequence(s, n, 0x43);
    lemma_short_sequence(s, n, 0x44);
}

/// Columns and rows are counted from one: `CSI n G` and ``CSI n ` `` go to column
/// `n` of the row, `CSI n d` to row `n` in the column.
pub proof fn lemma_going_to_a_column_or_a_row(s: Screen, n: nat)
    requires
        at_rest(s),
        cursor_on_cell(s),
        1 <= n < 1_000_000,
    ensures
        n <= s.cols() ==> only_moved(s, sequence(s, digits(n), 0x47), n - 1, s.row()),
        n <= s.cols() ==> only_moved(s, sequence(s, digits(n), 0x60), n - 1, s.row()),
        n <= s.rows() ==> only_moved(s, sequence(s, digits(n), 0x64), s.col(), n - 1),
{
    lemma_short_sequence(s, Some(n), 0x47);
    lemma_short_sequence(s, Some(n), 0x60);
    lemma_short_sequence(s, Some(n), 0x64);
}

/// `CSI r ; c H` and `CSI r ; c f` put the cursor into row `r` and column `c`, both
/// counted from one, and onto the last row or column where they are beyond it.
pub proof fn lemma_placing_the_cursor(s: Screen, r: nat, c: nat)
    requires
        at_rest(s),
        1 <= r < 1_000_000,
        1 <= c < 1_000_000,
    ensures
        ({
            let row = if r <= s.rows() {
                r - 1
            } else {
                s.rows() - 1
            };
            let col = if c <= s.cols() {
                c - 1
            } else {
                s.cols() - 1
            };
            &&& only_moved(s, sequence(s, listed(seq![r, c]), 0x48), col, row)
            &&& only_moved(s, sequence(s, listed(seq![r, c]), 0x66), col, row)
        }),
{
    let ns = seq![r, c];
    lemma_digits(r);
    lemma_digits(c);
    assert(ns.drop_last() =~= seq![r]);
    assert(listed(ns) == digits(r).push(0x3b) + digits(c)) by {
        assert(seq![r].last() == r);
        reveal_with_fuel(listed, 2);
    }
    lemma_long_sequence(s, ns, 0x48);
    lemma_long_sequence(s, ns, 0x66);
    assert(number(numbers(listed(ns)), 0, 1) == r);
    assert(number(numbers(listed(ns)), 1, 1) == c);
}

/// `CSI H` puts the cursor into the upper left cell.
pub proof fn lemma_going_home(s: Screen)
    requires
        at_rest(s),
    ensures
        only_moved(s, sequence(s, Seq::empty(), 0x48), 0, 0),
        only_moved(s, sequence(s, Seq::empty(), 0x66), 0, 0),
{
    lemma_one_number(None);
    lemma_short_sequence(s, None, 0x48);
    lemma_short_sequence(s, None, 0x66);
}

/// The colour of text has become `fg`, the cursor stays on its cell, and nothing
/// else has changed on the screen.
pub open spec fn only_coloured(s: Screen, t: Screen, fg: u32) -> bool {
    &&& same_look(s, t)
    &&& t.pixels == s.pixels
    &&& t.saved == s.saved
    &&& t.cursor_x == s.col() * s.char_width
    &&& t.cursor_y == s.row() * s.char_height
    &&& t.fg == fg
}

/// What `CSI n m` makes of the colour of text, for every `n`: a reset gives white,
/// 30 to 37 and 90 to 97 give the named colours, everything else leaves it.
pub proof fn lemma_named_colours(s: Screen, n: Option<nat>)
    requires
        at_rest(s),
        n matches Some(v) ==> v < 1_000_000,
    ensures
        ({
            let t = sequence(s, typed(n), 0x6d);
            &&& only_coloured(s, t, t.fg)
            &&& n is None || n == Some(0nat) || n == Some(39nat) ==> t.fg == 0xFFFFFF
            &&& n == Some(30nat) ==> t.fg == 0x000000
            &&& n == Some(31nat) ==> t.fg == 0xCD0000
            &&& n == Some(32nat) ==> t.fg == 0x00CD00
            &&& n == Some(33nat) ==> t.fg == 0xCDCD00
            &&& n == Some(34nat) ==> t.fg == 0x0000EE
            &&& n == Some(35nat) ==> t.fg == 0xCD00CD
            &&& n == Some(36nat) ==> t.fg == 0x00CDCD
            &&& n == Some(37nat) ==> t.fg == 0xE5E5E5
            &&& n == Some(90nat) ==> t.fg == 0x7F7F7F
            &&& n == Some(91nat) ==> t.fg == 0xFF0000
            &&& n == Some(92nat) ==> t.fg == 0x00FF00
            &&& n == Some(93nat) ==> t.fg == 0xFFFF00
            &&& n == Some(94nat) ==> t.fg == 0x5C5CFF
            &&& n == Some(95nat) ==> t.fg == 0xFF00FF
            &&& n == Some(96nat) ==> t.fg == 0x00FFFF
            &&& n == Some(97nat) ==> t.fg == 0xFFFFFF
            &&& n matches Some(v) ==> (v != 0 && v != 39 && !(30 <= v <= 37) && !(90 <= v <= 97)
                ==> t.fg == s.fg)
        }),
{
    lemma_one_number(n);
    lemma_short_sequence(s, n, 0x6d);
    reveal_with_fuel(sgr, 2);
}

/// `CSI 38 ; 2 ; r ; g ; b m` gives the colour with these channels, red in the
/// highest byte.
pub proof fn lemma_direct_colours(s: Screen, r: nat, g: nat, b: nat)
    requires
        at_rest(s),
        r < 256,
        g < 256,
        b < 256,
    ensures
        only_coloured(
            s,
            sequence(s, listed(seq![38, 2, r, g, b]), 0x6d),
            (r * 65536 + g * 256 + b) as u32,
        ),
{
    let ns = seq![38nat, 2, r, g, b];
    lemma_list_is_short(ns);
    lemma_long_sequence(s, ns, 0x6d);
    let nums = numbers(listed(ns));
    reveal_with_fuel(sgr, 2);
    assert(nums[0] == Some(38int) && nums[1] == Some(2int) && nums[2] == Some(r as int) && nums[3]
        == Some(g as int) && nums[4] == Some(b as int));
    lemma_channels(r as u32, g as u32, b as u32);
}

/// Three bytes side by side.
proof fn lemma_channels(r: u32, g: u32, b: u32)
    requires
        r < 256,
        g < 256,
        b < 256,
    ensures
        rgb(r, g, b) == r * 65536 + g * 256 + b,
{
    assert((r << 16) | (g << 8) | b == r * 65536 + g * 256 + b) by (bit_vector)
        requires
            r < 256,
            g < 256,
            b < 256,
    ;
}

/// The brightness of a channel of the colour cube, by its level.
pub open spec fn cube_level(n: nat) -> nat {
    if n == 0 {
        0
    } else if n == 1 {
        95
    } else if n == 2 {
        135
    } else if n == 3 {
        175
    } else if n == 4 {
        215
    } else {
        255
    }
}

/// What `CSI 38 ; 5 ; n m` comes to.
proof fn lemma_numbered_colour(s: Screen, n: nat)
    requires
        at_rest(s),
        n < 256,
    ensures
        only_coloured(s, sequence(s, listed(seq![38, 5, n]), 0x6d), xterm256(n as int)),
{
    let ns = seq![38nat, 5, n];
    lemma_list_is_short(ns);
    lemma_long_sequence(s, ns, 0x6d);
    let nums = numbers(listed(ns));
    reveal_with_fuel(sgr, 2);
    assert(nums[0] == Some(38int) && nums[1] == Some(5int) && nums[2] == Some(n as int));
}

/// The cube of colours.
proof fn lemma_cube(r: nat, g: nat, b: nat)
    requires
        r < 6,
        g < 6,
        b < 6,
    ensures
        xterm256((16 + 36 * r + 6 * g + b) as int) == cube_level(r) * 65536 + cube_level(g) * 256
            + cube_level(b),
{
    let n = 16 + 36 * r + 6 * g + b;
    assert((n - 16) / 36 == r && (n - 16) / 6 % 6 == g && (n - 16) % 6 == b);
    lemma_channels(level(r as int), level(g as int), level(b as int));
}

/// `CSI 38 ; 5 ; n m` gives colour `n` of 256: first the named ones, then a cube that is
/// counted with blue running fastest, and behind it a ramp of 24 greys.
pub proof fn lemma_numbered_colours(s: Screen, n: nat)
    requires
        at_rest(s),
        n < 256,
    ensures
        ({
            let t = sequence(s, listed(seq![38, 5, n]), 0x6d);
            &&& only_coloured(s, t, t.fg)
            &&& n < 8 ==> t.fg == sequence(s, digits(30 + n), 0x6d).fg
            &&& 8 <= n < 16 ==> t.fg == sequence(s, digits((82 + n) as nat), 0x6d).fg
            &&& 232 <= n ==> t.fg == (8 + 10 * (n - 232)) * 0x010101
        }),
{
    lemma_numbered_colour(s, n);
    if n < 8 {
        lemma_named_colours(s, Some(30 + n));
    } else if n < 16 {
        lemma_named_colours(s, Some((82 + n) as nat));
    } else if 232 <= n {
        let v = (8 + (n - 232) * 10) as u32;
        lemma_channels(v, v, v);
    }
}

/// The colours of the cube, by the levels of their channels.
pub proof fn lemma_colours_of_the_cube(s: Screen, r: nat, g: nat, b: nat)
    requires
        at_rest(s),
        r < 6,
        g < 6,
        b < 6,
    ensures
        sequence(s, listed(seq![38, 5, (16 + 36 * r + 6 * g + b) as nat]), 0x6d).fg == cube_level(r)
            * 65536 + cube_level(g) * 256 + cube_level(b),
{
    lemma_numbered_colour(s, (16 + 36 * r + 6 * g + b) as nat);
    lemma_cube(r, g, b);
}

/// Attributes are applied one after the other: what comes first is applied first,
/// and the rest to what it leaves.
pub proof fn lemma_attributes_apply_in_order(nums: Seq<Option<int>>, i: int, fg: u32)
    requires
        0 <= i < nums.len(),
    ensures
        number(nums, i, 0) != 38 ==> sgr(nums, i, fg) == sgr(
            nums,
            i + 1,
            sgr(seq![nums[i]], 0, fg),
        ),
        i + 2 < nums.len() && nums[i] == Some(38int) && nums[i + 1] == Some(5int) ==> sgr(
            nums,
            i,
            fg,
        ) == sgr(nums, i + 3, sgr(seq![nums[i], nums[i + 1], nums[i + 2]], 0, fg)),
        i + 4 < nums.len() && nums[i] == Some(38int) && nums[i + 1] == Some(2int) ==> sgr(
            nums,
            i,
            fg,
        ) == sgr(
            nums,
            i + 5,
            sgr(seq![nums[i], nums[i + 1], nums[i + 2], nums[i + 3], nums[i + 4]], 0, fg),
        ),
{
    reveal_with_fuel(sgr, 2);
}

/// A sequence whose parameters start with a question mark, and one with a final
/// byte that stands for nothing, change nothing on the screen: the cursor only
/// settles on its cell.
pub proof fn lemma_other_sequences_change_nothing(s: Screen, params: Seq<u8>, op: u8)
    requires
        at_rest(s),
        params.len() <= 32,
        forall|i: int| 0 <= i < params.len() ==> 0x20 <= #[trigger] params[i] <= 0x3f,
        0x40 <= op <= 0x7e,
        (params.len() > 0 && params[0] == 0x3f) || op == 0x40 || 0x49 == op || 0x4c <= op <= 0x5f
            || 0x61 <= op <= 0x63 || op == 0x65 || 0x67 <= op <= 0x6c || 0x6e <= op <= 0x72 || op
            == 0x74 || 0x76 <= op <= 0x7e,
    ensures
        only_moved(s, sequence(s, params, op), s.col(), s.row()),
{
    lemma_sequence(s, params, op);
    lemma_has_cells(s);
}

} // verus!
