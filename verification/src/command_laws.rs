//! What commands mean, and what the consoles show and report.
use crate::bytes::{le32, lemma_read_of_write32, u32_at};
use crate::console_commands::{mode_named, place_of};
use crate::control_laws::on_screen;
use crate::drm_console::{block_shown, cells_shown, list_bytes, shown, text_of};
use crate::grid::lemma_word;
use crate::screen::Screen;
use crate::terminal::Terminal;
use crate::text_laws::{lemma_clearing_the_screen, lemma_setting_a_pixel};
use crate::words::{decimal, is_digit, is_space, lemma_decimal_reads_back, words};
use vstd::prelude::*;

verus! {

/// The first place of a character is where it is put if the text before it has none.
proof fn lemma_place(a: Seq<char>, c: char, b: Seq<char>)
    requires
        !a.contains(c),
    ensures
        place_of(a + seq![c] + b, c) == a.len(),
    decreases a.len(),
{
    let all = a + seq![c] + b;
    if a.len() > 0 {
        assert(a[0] != c) by {
            assert(a.contains(a[0]));
        }
        let less = a.skip(1);
        assert forall|i: int| 0 <= i < less.len() implies less[i] != c by {
            assert(less[i] == a[i + 1]);
            assert(a.contains(a[i + 1]));
        }
        lemma_place(less, c, b);
        assert(all.skip(1) =~= less + seq![c] + b);
        assert(all[0] == a[0]);
    } else {
        assert(all[0] == c);
    }
}

/// A character that a text does not have is placed behind it.
proof fn lemma_no_place(a: Seq<char>, c: char)
    requires
        !a.contains(c),
    ensures
        place_of(a, c) == a.len(),
    decreases a.len(),
{
    if a.len() > 0 {
        assert(a[0] != c) by {
            assert(a.contains(a[0]));
        }
        let less = a.skip(1);
        assert forall|i: int| 0 <= i < less.len() implies less[i] != c by {
            assert(less[i] == a[i + 1]);
            assert(a.contains(a[i + 1]));
        }
        lemma_no_place(less, c);
    }
}

/// Decimal numbers are made of digits.
proof fn lemma_only_digits(n: int, c: char)
    requires
        0 <= n,
        !is_digit(c),
    ensures
        !decimal(n).contains(c),
    decreases n,
{
    let d = decimal(n);
    if n >= 10 {
        lemma_only_digits(n / 10, c);
    }
    assert forall|i: int| 0 <= i < d.len() implies d[i] != c by {
        if n >= 10 && i < d.len() - 1 {
            assert(d[i] == decimal(n / 10)[i]);
            assert(decimal(n / 10).contains(decimal(n / 10)[i]));
        } else {
            let v: int = if n < 10 {
                n
            } else {
                n % 10
            };
            assert(d[i] == crate::words::digit(v));
            assert(crate::words::digit(v) as u32 == 0x30 + v);
        }
    }
}

/// A mode that is named by its width, its height and its rate is that mode; without a
/// rate it is the one at 60 Hz.
pub proof fn lemma_a_mode_is_named(w: u32, h: u32, r: u32)
    ensures
        mode_named(decimal(w as int) + seq!['x'] + decimal(h as int) + seq!['@'] + decimal(r as int))
            == Ok::<(u32, u32, u32), crate::console_commands::CommandError>((w, h, r)),
        mode_named(decimal(w as int) + seq!['x'] + decimal(h as int)) == Ok::<
            (u32, u32, u32),
            crate::console_commands::CommandError,
        >((w, h, 60u32)),
{
    let (a, b, c) = (decimal(w as int), decimal(h as int), decimal(r as int));
    let size = a + seq!['x'] + b;
    let all = size + seq!['@'] + c;
    lemma_only_digits(w as int, 'x');
    lemma_only_digits(w as int, '@');
    lemma_only_digits(h as int, '@');
    assert forall|i: int| 0 <= i < size.len() implies size[i] != '@' by {
        if i < a.len() {
            assert(a.contains(a[i]));
        } else if i > a.len() {
            assert(b.contains(b[i - a.len() - 1]));
        }
    }
    lemma_place(size, '@', c);
    lemma_no_place(size, '@');
    lemma_place(a, 'x', b);
    assert(all.take(size.len() as int) =~= size);
    assert(size.take(size.len() as int) =~= size);
    assert(all.skip(size.len() as int + 1) =~= c);
    assert(size.take(a.len() as int) =~= a);
    assert(size.skip(a.len() as int + 1) =~= b);
    lemma_decimal_reads_back(w as int, u32::MAX as int);
    lemma_decimal_reads_back(h as int, u32::MAX as int);
    lemma_decimal_reads_back(r as int, u32::MAX as int);
}

/// A cell has a mark: it shows a character other than a space.
pub open spec fn marked(t: Terminal, x: int, y: int) -> bool {
    &&& 0 <= x < t.cols()
    &&& 0 <= y < t.rows()
    &&& 0x21 <= t.chars[y][x] <= 0x7e
}

/// The marks of the first `k` cells, pixel by pixel.
proof fn lemma_marks(s: Screen, t: Terminal, k: int)
    requires
        s.wf(),
        t.wf(),
        0 <= k <= t.rows() * t.cols(),
    ensures
        cells_shown(s, t, k).wf(),
        cells_shown(s, t, k).ready == s.ready,
        cells_shown(s, t, k).width == s.width,
        cells_shown(s, t, k).height == s.height,
        cells_shown(s, t, k).pitch == s.pitch,
        forall|px: int, py: int|
            on_screen(s, px, py) ==> #[trigger] cells_shown(s, t, k).at(px, py) == (if px % 8 == 0
                && py % 16 == 0 && marked(t, px / 8, py / 16) && py / 16 * t.cols() + px / 8 < k {
                t.colors[py / 16][px / 8]
            } else {
                s.at(px, py)
            }),
    decreases k,
{
    if k > 0 && t.cols() > 0 {
        lemma_marks(s, t, k - 1);
        let before = cells_shown(s, t, k - 1);
        let (y, x) = ((k - 1) / t.cols(), (k - 1) % t.cols());
        let after = cells_shown(s, t, k);
        vstd::arithmetic::div_mod::lemma_fundamental_div_mod(k - 1, t.cols());
        assert(0 <= y < t.rows()) by (nonlinear_arith)
            requires
                k - 1 == t.cols() * y + x,
                0 <= x < t.cols(),
                0 <= k - 1 < t.rows() * t.cols(),
        ;
        assert(y * t.cols() + x == k - 1) by (nonlinear_arith)
            requires
                k - 1 == t.cols() * y + x,
        ;
        lemma_setting_a_pixel(before, x * 8, y * 16, t.colors[y][x]);
        assert forall|px: int, py: int| on_screen(s, px, py) implies #[trigger] after.at(px, py)
            == (if px % 8 == 0 && py % 16 == 0 && marked(t, px / 8, py / 16) && py / 16 * t.cols()
            + px / 8 < k {
            t.colors[py / 16][px / 8]
        } else {
            s.at(px, py)
        }) by {
            let old = before.at(px, py);
            let (cx, cy) = (px / 8, py / 16);
            if marked(t, cx, cy) && cy * t.cols() + cx == k - 1 {
                lemma_word(k - 1, cy, cx, t.cols());
            }
        }
    } else if k > 0 {
        assert(t.rows() * t.cols() <= 0) by (nonlinear_arith)
            requires
                t.cols() <= 0,
                t.rows() >= 0,
        ;
    }
}

/// The first `k` pixels of the cursor's block.
proof fn lemma_block(s: Screen, x: int, y: int, k: int)
    requires
        s.wf(),
        0 <= x,
        0 <= y,
        0 <= k,
    ensures
        block_shown(s, x, y, k).wf(),
        block_shown(s, x, y, k).width == s.width,
        block_shown(s, x, y, k).height == s.height,
        block_shown(s, x, y, k).pitch == s.pitch,
        forall|px: int, py: int|
            on_screen(s, px, py) ==> #[trigger] block_shown(s, x, y, k).at(px, py) == (if x <= px < x
                + 8 && y <= py && (py - y) * 8 + (px - x) < k {
                0xFFFFFF
            } else {
                s.at(px, py)
            }),
    decreases k,
{
    if k > 0 {
        lemma_block(s, x, y, k - 1);
        let before = block_shown(s, x, y, k - 1);
        let after = block_shown(s, x, y, k);
        let (dx, dy) = ((k - 1) % 8, (k - 1) / 8);
        lemma_setting_a_pixel(before, x + dx, y + dy, 0xFFFFFF);
        assert forall|px: int, py: int| on_screen(s, px, py) implies #[trigger] after.at(px, py)
            == (if x <= px < x + 8 && y <= py && (py - y) * 8 + (px - x) < k {
            0xFFFFFF
        } else {
            s.at(px, py)
        }) by {
            let old = before.at(px, py);
        }
    }
}

/// A terminal on the plain surface, pixel by pixel: the cursor's cell is a white block
/// of 8 by 16 pixels, every other cell that shows a character has a mark of the
/// character's colour in its upper left pixel, and everything else is black.
pub proof fn lemma_how_a_terminal_is_shown(s: Screen, t: Terminal)
    requires
        s.wf(),
        s.ready,
        t.wf(),
    ensures
        forall|px: int, py: int|
            on_screen(s, px, py) ==> #[trigger] shown(s, t).at(px, py) == (if px / 8 == t.cursor_x
                && py / 16 == t.cursor_y {
                0xFFFFFF
            } else if px % 8 == 0 && py % 16 == 0 && marked(t, px / 8, py / 16) {
                t.colors[py / 16][px / 8]
            } else {
                0
            }),
{
    let black = s.clear(0);
    let n = t.rows() * t.cols();
    assert(0 <= n) by (nonlinear_arith)
        requires
            n == t.rows() * t.cols(),
            t.rows() >= 0,
            t.cols() >= 0,
    ;
    assert(black.wf());
    lemma_clearing_the_screen(s, 0);
    lemma_marks(black, t, n);
    let marks = cells_shown(black, t, n);
    lemma_block(marks, t.cursor_x * 8, t.cursor_y * 16, 128);
    assert forall|px: int, py: int| on_screen(s, px, py) implies #[trigger] shown(s, t).at(px, py)
        == (if px / 8 == t.cursor_x && py / 16 == t.cursor_y {
        0xFFFFFF
    } else if px % 8 == 0 && py % 16 == 0 && marked(t, px / 8, py / 16) {
        t.colors[py / 16][px / 8]
    } else {
        0
    }) by {
        let (a, b) = (marks.at(px, py), black.at(px, py));
        let (cx, cy) = (px / 8, py / 16);
        if marked(t, cx, cy) {
            assert(cy * t.cols() + cx < n) by (nonlinear_arith)
                requires
                    0 <= cx < t.cols(),
                    0 <= cy < t.rows(),
                    n == t.rows() * t.cols(),
            ;
        }
    }
}

/// The modes of a list read back from a message: twelve bytes each, its width, its
/// height and its rate.
pub proof fn lemma_listed_modes_read_back(modes: Seq<(u32, u32, u32)>, k: int, i: int)
    requires
        0 <= i < k <= modes.len(),
    ensures
        list_bytes(modes, k).len() == 12 * k,
        u32_at(list_bytes(modes, k), 12 * i) == modes[i].0,
        u32_at(list_bytes(modes, k), 12 * i + 4) == modes[i].1,
        u32_at(list_bytes(modes, k), 12 * i + 8) == modes[i].2,
    decreases k,
{
    let before = list_bytes(modes, k - 1);
    let m = modes[k - 1];
    let all = list_bytes(modes, k);
    if k > 1 {
        lemma_listed_modes_read_back(
            modes,
            k - 1,
            if i < k - 1 {
                i
            } else {
                0
            },
        );
    }
    assert(before.len() == 12 * (k - 1));
    if i < k - 1 {
        assert forall|j: int| 0 <= j < before.len() implies all[j] == before[j] by {}
    } else {
        let none = Seq::<u8>::empty();
        let (a, b, c) = (le32(m.0), le32(m.1), le32(m.2));
        assert(all =~= before + a + (b + c));
        lemma_read_of_write32(m.0, before, b + c);
        assert(all =~= (before + a) + b + c);
        lemma_read_of_write32(m.1, before + a, c);
        assert(all =~= (before + a + b) + c + none);
        lemma_read_of_write32(m.2, before + a + b, none);
    }
}

/// The text of a message is what stands before the first zero byte, or all of it.
pub proof fn lemma_a_text_ends_at_the_first_zero(data: Seq<u8>, n: int)
    requires
        0 <= n <= data.len(),
        forall|i: int| 0 <= i < n ==> #[trigger] data[i] != 0,
        n < data.len() ==> data[n] == 0,
    ensures
        text_of(data) == data.take(n),
    decreases n,
{
    if n > 0 {
        let rest = data.skip(1);
        assert forall|i: int| 0 <= i < n - 1 implies #[trigger] rest[i] != 0 by {
            assert(rest[i] == data[i + 1]);
        }
        assert(data[0] != 0);
        lemma_a_text_ends_at_the_first_zero(rest, n - 1);
        assert(seq![data[0]] + rest.take(n - 1) =~= data.take(n));
    } else {
        assert(data.take(0) =~= Seq::empty());
    }
}

/// A text without white space that has something in it.
pub open spec fn is_one_word(w: Seq<char>) -> bool {
    w.len() > 0 && forall|i: int| 0 <= i < w.len() ==> !is_space(#[trigger] w[i])
}

/// A word alone is one word; behind other text and a space it is one more, whatever
/// that text is; and a space behind a text adds none.
pub proof fn lemma_words_stand_between_spaces(before: Seq<char>, space: char, w: Seq<char>)
    requires
        is_space(space),
        is_one_word(w),
    ensures
        words(w) == seq![w],
        words(before + seq![space]) == words(before),
        words(before + seq![space] + w) == words(before).push(w),
    decreases w.len(),
{
    let gap = before + seq![space];
    assert(gap.drop_last() =~= before);
    let all = gap + w;
    let c = w.last();
    let less = w.drop_last();
    assert(!is_space(w[w.len() - 1]));
    assert(all.drop_last() =~= gap + less);
    assert(all.last() == c);
    if w.len() == 1 {
        assert(less =~= Seq::empty());
        assert(gap + less =~= gap);
        assert(w =~= seq![c]);
        assert(all[all.len() - 2] == space);
        assert(words(less) =~= Seq::empty());
        assert(words(w) =~= seq![w]);
    } else {
        assert forall|i: int| 0 <= i < less.len() implies !is_space(#[trigger] less[i]) by {
            assert(less[i] == w[i]);
        }
        lemma_words_stand_between_spaces(before, space, less);
        assert(less.push(c) =~= w);
        assert(!is_space(w[w.len() - 2]));
        assert(all[all.len() - 2] == w[w.len() - 2]);
        assert(words(all) =~= words(before).push(w));
        assert(words(w) =~= seq![w]);
    }
}

} // verus!
