//! Drawing outlines into glyph bitmaps with straight lines.
use crate::grid::lemma_word;
use vstd::prelude::*;

verus! {

/// Bytes of a glyph bitmap: one per pixel, row by row.
pub const GLYPH_BYTES: usize = 1024;

/// Rows that a line may reach.
pub const GLYPH_ROWS: i64 = 32;

/// A straight line between two pixels.
pub struct Line {
    pub x1: int,
    pub y1: int,
    pub x2: int,
    pub y2: int,
}

pub open spec fn abs(v: int) -> int {
    if v < 0 { -v } else { v }
}

impl Line {
    pub open spec fn dx(self) -> int {
        abs(self.x2 - self.x1)
    }

    pub open spec fn dy(self) -> int {
        abs(self.y2 - self.y1)
    }

    pub open spec fn sx(self) -> int {
        if self.x1 < self.x2 { 1 } else { -1 }
    }

    pub open spec fn sy(self) -> int {
        if self.y1 < self.y2 { 1 } else { -1 }
    }

    /// How far the pixel after `a` steps across and `b` steps down or up is off
    /// the ideal line: the larger, the more a step across is due.
    pub open spec fn error(self, a: int, b: int) -> int {
        self.dx() * (1 + b) - self.dy() * (1 + a)
    }

    /// Whether the next pixel is one further across.
    pub open spec fn across(self, a: int, b: int) -> bool {
        2 * self.error(a, b) > -self.dy()
    }

    /// Whether the next pixel is one further down or up.
    pub open spec fn along(self, a: int, b: int) -> bool {
        2 * self.error(a, b) < self.dx()
    }

    /// Whether the line, from `a` steps across and `b` steps down or up on,
    /// passes the pixel (`x`, `y`).
    pub open spec fn passes_from(self, a: int, b: int, x: int, y: int) -> bool
        decreases self.dx() - a + self.dy() - b,
        when 0 <= a <= self.dx() && 0 <= b <= self.dy()
    {
        proof {
            if !(a == self.dx() && b == self.dy()) {
                lemma_step(self, a, b);
            }
        }
        ||| x == self.x1 + self.sx() * a && y == self.y1 + self.sy() * b
        ||| {
            &&& !(a == self.dx() && b == self.dy())
            &&& self.passes_from(
                if self.across(a, b) { a + 1 } else { a },
                if self.along(a, b) { b + 1 } else { b },
                x,
                y,
            )
        }
    }

    /// Whether the line passes the pixel (`x`, `y`).
    pub open spec fn passes(self, x: int, y: int) -> bool {
        self.passes_from(0, 0, x, y)
    }
}

/// Short of its end, a line goes on in at least one direction and in neither
/// beyond its end.
pub proof fn lemma_step(l: Line, a: int, b: int)
    requires
        0 <= a <= l.dx(),
        0 <= b <= l.dy(),
        !(a == l.dx() && b == l.dy()),
    ensures
        l.across(a, b) ==> a < l.dx(),
        l.along(a, b) ==> b < l.dy(),
        l.across(a, b) || l.along(a, b),
{
    let (dx, dy) = (l.dx(), l.dy());
    if a == dx {
        assert(dx * (1 + b) <= dx * dy) by (nonlinear_arith)
            requires
                0 <= dx,
                1 + b <= dy,
        ;
        assert(dy * (1 + a) == dy + dx * dy) by (nonlinear_arith)
            requires
                a == dx,
        ;
    } else if b == dy {
        assert(dy * (1 + a) <= dx * dy) by (nonlinear_arith)
            requires
                0 <= dy,
                1 + a <= dx,
        ;
        assert(dx * (1 + b) == dx + dx * dy) by (nonlinear_arith)
            requires
                b == dy,
        ;
    }
}

/// A bitmap with the rest of a line drawn into it.
pub open spec fn drawn_from(bitmap: Seq<u8>, l: Line, a: int, b: int, width: int) -> Seq<u8> {
    Seq::new(
        bitmap.len(),
        |i: int|
            if width > 0 && i / width < GLYPH_ROWS && l.passes_from(a, b, i % width, i / width) {
                255
            } else {
                bitmap[i]
            },
    )
}

/// A bitmap with a line drawn into it.
pub open spec fn drawn(bitmap: Seq<u8>, l: Line, width: int) -> Seq<u8> {
    drawn_from(bitmap, l, 0, 0, width)
}

fn distance(a: i64, b: i64) -> (d: i64)
    requires
        -0x8000_0000 <= a <= 0x7fff_ffff,
        -0x8000_0000 <= b <= 0x7fff_ffff,
    ensures
        d == abs(a - b),
{
    if a < b {
        b - a
    } else {
        a - b
    }
}

/// Draws a line, as far as it runs through the bitmap.
pub fn draw_line(x1: i32, y1: i32, x2: i32, y2: i32, bitmap: &mut [u8; 1024], width: usize)
    requires
        width <= 0x7fff_ffff,
    ensures
        final(bitmap)@ == drawn(
            old(bitmap)@,
            Line { x1: x1 as int, y1: y1 as int, x2: x2 as int, y2: y2 as int },
            width as int,
        ),
{
    let ghost l = Line { x1: x1 as int, y1: y1 as int, x2: x2 as int, y2: y2 as int };
    let ghost before = bitmap@;
    let dx: i64 = distance(x2 as i64, x1 as i64);
    let dy: i64 = distance(y2 as i64, y1 as i64);
    let sx: i64 = if x1 < x2 { 1 } else { -1 };
    let sy: i64 = if y1 < y2 { 1 } else { -1 };
    let mut err: i64 = dx - dy;
    let mut x: i64 = x1 as i64;
    let mut y: i64 = y1 as i64;
    let w: i64 = width as i64;
    let ghost mut a: int = 0;
    let ghost mut b: int = 0;
    assert(l.error(0, 0) == err) by (nonlinear_arith)
        requires
            l.error(0, 0) == dx * (1 + 0) - dy * (1 + 0),
            err == dx - dy,
    ;
    while x != x2 as i64 || y != y2 as i64
        invariant
            l == (Line { x1: x1 as int, y1: y1 as int, x2: x2 as int, y2: y2 as int }),
            dx == l.dx(),
            dy == l.dy(),
            sx == l.sx(),
            sy == l.sy(),
            dx <= 0xffff_ffff,
            dy <= 0xffff_ffff,
            0 <= a <= dx,
            0 <= b <= dy,
            x == x1 + sx * a,
            y == y1 + sy * b,
            err == l.error(a, b),
            -2 * dy <= err <= 2 * dx,
            w == width,
            width <= 0x7fff_ffff,
            before.len() == 1024,
            drawn_from(bitmap@, l, a, b, width as int) == drawn(before, l, width as int),
        decreases dx - a + dy - b,
    {
        let ghost last = bitmap@;
        plot(bitmap, x, y, w);
        let e2: i64 = 2 * err;
        let ghost (a0, b0) = (a, b);
        proof {
            assert(!(a == dx && b == dy));
            lemma_step(l, a, b);
            assert(-dx <= sx * a <= dx && sx * (a + 1) == sx * a + sx) by (nonlinear_arith)
                requires
                    sx == 1 || sx == -1,
                    0 <= a <= dx,
            ;
            assert(-dy <= sy * b <= dy && sy * (b + 1) == sy * b + sy) by (nonlinear_arith)
                requires
                    sy == 1 || sy == -1,
                    0 <= b <= dy,
            ;
        }
        if e2 > -dy {
            proof {
                assert(l.error(a + 1, b) == l.error(a, b) - dy) by (nonlinear_arith)
                    requires
                        l.error(a + 1, b) == l.dx() * (1 + b) - l.dy() * (1 + (a + 1)),
                        l.error(a, b) == l.dx() * (1 + b) - l.dy() * (1 + a),
                        dy == l.dy(),
                ;
                a = a + 1;
            }
            err = err - dy;
            x = x + sx;
        }
        if e2 < dx {
            proof {
                assert(l.error(a, b + 1) == l.error(a, b) + dx) by (nonlinear_arith)
                    requires
                        l.error(a, b + 1) == l.dx() * (1 + (b + 1)) - l.dy() * (1 + a),
                        l.error(a, b) == l.dx() * (1 + b) - l.dy() * (1 + a),
                        dx == l.dx(),
                ;
                b = b + 1;
            }
            err = err + dx;
            y = y + sy;
        }
        proof {
            lemma_plotted(last, bitmap@, l, a0, b0, width as int);
        }
    }
    assert(a == dx && b == dy);
    let ghost last = bitmap@;
    plot(bitmap, x, y, w);
    proof {
        lemma_plotted(last, bitmap@, l, a, b, width as int);
    }
}

/// A bitmap with one pixel lit, where it has that pixel.
pub open spec fn plotted(bitmap: Seq<u8>, x: int, y: int, width: int) -> Seq<u8> {
    if 0 <= x < width && 0 <= y < GLYPH_ROWS && y * width + x < bitmap.len() {
        bitmap.update(y * width + x, 255)
    } else {
        bitmap
    }
}

/// Lights one pixel, where the bitmap has it.
fn plot(bitmap: &mut [u8; 1024], x: i64, y: i64, width: i64)
    requires
        0 <= width <= 0x7fff_ffff,
    ensures
        final(bitmap)@ == plotted(old(bitmap)@, x as int, y as int, width as int),
{
    if x >= 0 && x < width && y >= 0 && y < GLYPH_ROWS {
        assert(0 <= y * width <= 32 * 0x7fff_ffff) by (nonlinear_arith)
            requires
                0 <= y < 32,
                0 <= width <= 0x7fff_ffff,
        ;
        let at: i64 = y * width + x;
        if at < 1024 {
            let ghost before = bitmap@;
            bitmap[at as usize] = 255;
            assert(bitmap@ =~= before.update(at as int, 255));
        }
    }
}

/// Lighting one pixel of a line leaves the rest of it to draw.
proof fn lemma_plotted(last: Seq<u8>, next: Seq<u8>, l: Line, a: int, b: int, width: int)
    requires
        0 <= a <= l.dx(),
        0 <= b <= l.dy(),
        0 <= width,
        next == plotted(last, l.x1 + l.sx() * a, l.y1 + l.sy() * b, width),
    ensures
        a == l.dx() && b == l.dy() ==> next == drawn_from(last, l, a, b, width),
        !(a == l.dx() && b == l.dy()) ==> drawn_from(
            next,
            l,
            if l.across(a, b) { a + 1 } else { a },
            if l.along(a, b) { b + 1 } else { b },
            width,
        ) == drawn_from(last, l, a, b, width),
{
    let (x, y) = (l.x1 + l.sx() * a, l.y1 + l.sy() * b);
    assert forall|i: int| #![trigger last[i]] 0 <= i < last.len() && width > 0 implies ((i % width == x && i / width
        == y) <==> (0 <= x < width && i == y * width + x)) by {
        vstd::arithmetic::div_mod::lemma_fundamental_div_mod(i, width);
        assert(width * (i / width) == (i / width) * width) by (nonlinear_arith);
        if 0 <= x < width && i == y * width + x {
            lemma_word(i, y, x, width);
        }
    }
    assert forall|i: int| #![trigger last[i]] 0 <= i < last.len() && width > 0 implies i / width >= 0 by {
        vstd::arithmetic::div_mod::lemma_div_pos_is_pos(i, width);
    }
    if a == l.dx() && b == l.dy() {
        assert(next =~= drawn_from(last, l, a, b, width));
    } else {
        lemma_step(l, a, b);
        let na = if l.across(a, b) { a + 1 } else { a };
        let nb = if l.along(a, b) { b + 1 } else { b };
        assert(drawn_from(next, l, na, nb, width) =~= drawn_from(last, l, a, b, width));
    }
}

/// A line passes both of its ends.
pub proof fn lemma_line_reaches_both_ends(l: Line)
    ensures
        l.passes(l.x1, l.y1),
        l.passes(l.x2, l.y2),
{
    assert(l.sx() * 0 == 0 && l.sy() * 0 == 0) by (nonlinear_arith);
    lemma_reaches_end(l, 0, 0);
}

proof fn lemma_reaches_end(l: Line, a: int, b: int)
    requires
        0 <= a <= l.dx(),
        0 <= b <= l.dy(),
    ensures
        l.passes_from(a, b, l.x2, l.y2),
    decreases l.dx() - a + l.dy() - b,
{
    if a == l.dx() && b == l.dy() {
        assert(l.sx() * a == l.x2 - l.x1) by (nonlinear_arith)
            requires
                a == abs(l.x2 - l.x1),
                l.sx() == (if l.x1 < l.x2 { 1int } else { -1 }),
        ;
        assert(l.sy() * b == l.y2 - l.y1) by (nonlinear_arith)
            requires
                b == abs(l.y2 - l.y1),
                l.sy() == (if l.y1 < l.y2 { 1int } else { -1 }),
        ;
    } else {
        lemma_step(l, a, b);
        lemma_reaches_end(
            l,
            if l.across(a, b) { a + 1 } else { a },
            if l.along(a, b) { b + 1 } else { b },
        );
    }
}

/// A line stays within the rectangle that its ends span.
pub proof fn lemma_line_stays_between_its_ends(l: Line, x: int, y: int)
    requires
        l.passes(x, y),
    ensures
        l.x1 <= x <= l.x2 || l.x2 <= x <= l.x1,
        l.y1 <= y <= l.y2 || l.y2 <= y <= l.y1,
{
    lemma_between(l, 0, 0, x, y);
}

proof fn lemma_between(l: Line, a: int, b: int, x: int, y: int)
    requires
        0 <= a <= l.dx(),
        0 <= b <= l.dy(),
        l.passes_from(a, b, x, y),
    ensures
        l.x1 <= x <= l.x2 || l.x2 <= x <= l.x1,
        l.y1 <= y <= l.y2 || l.y2 <= y <= l.y1,
    decreases l.dx() - a + l.dy() - b,
{
    if x == l.x1 + l.sx() * a && y == l.y1 + l.sy() * b {
        assert(l.sx() * a == if l.x1 < l.x2 { a } else { -a }) by (nonlinear_arith)
            requires
                l.sx() == (if l.x1 < l.x2 { 1int } else { -1 }),
        ;
        assert(l.sy() * b == if l.y1 < l.y2 { b } else { -b }) by (nonlinear_arith)
            requires
                l.sy() == (if l.y1 < l.y2 { 1int } else { -1 }),
        ;
    } else {
        lemma_step(l, a, b);
        lemma_between(
            l,
            if l.across(a, b) { a + 1 } else { a },
            if l.along(a, b) { b + 1 } else { b },
            x,
            y,
        );
    }
}

} // verus!
