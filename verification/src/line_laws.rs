//! How straight and how unbroken a drawn line is.
use crate::raster::{lemma_step, Line};
use vstd::prelude::*;

verus! {

/// How far the pixel after `a` steps across and `b` steps down or up is off the line
/// between the ends, in parts of a pixel of which the longer extent makes one.
spec fn off(l: Line, a: int, b: int) -> int {
    l.dx() * b - l.dy() * a
}

/// At most half a pixel off.
spec fn close(l: Line, a: int, b: int) -> bool {
    let longer = if l.dx() >= l.dy() {
        l.dx()
    } else {
        l.dy()
    };
    -longer <= 2 * off(l, a, b) <= longer
}

/// A step from a close pixel leads to a close pixel.
proof fn lemma_stays_close(l: Line, a: int, b: int)
    requires
        0 <= a <= l.dx(),
        0 <= b <= l.dy(),
        !(a == l.dx() && b == l.dy()),
        close(l, a, b),
    ensures
        ({
            let c = if l.across(a, b) {
                a + 1
            } else {
                a
            };
            let d = if l.along(a, b) {
                b + 1
            } else {
                b
            };
            close(l, c, d)
        }),
        l.dx() >= l.dy() ==> l.across(a, b),
        l.dy() > l.dx() ==> l.along(a, b),
{
    let (dx, dy) = (l.dx(), l.dy());
    let now = off(l, a, b);
    assert(off(l, a + 1, b) == now - dy && off(l, a, b + 1) == now + dx && off(l, a + 1, b + 1)
        == now + dx - dy && l.error(a, b) == now + dx - dy) by {
        assert(dy * (a + 1) == dy * a + dy) by (nonlinear_arith);
        assert(dx * (b + 1) == dx * b + dx) by (nonlinear_arith);
        assert(dx * (1 + b) == dx * b + dx) by (nonlinear_arith);
        assert(dy * (1 + a) == dy * a + dy) by (nonlinear_arith);
    }
    if dx == dy {
        if now != 0 {
            assert(2 * now <= dx && -dx <= 2 * now);
            assert(now == dx * (b - a)) by (nonlinear_arith)
                requires
                    now == dx * b - dy * a,
                    dx == dy,
            ;
            assert(b - a == 0) by (nonlinear_arith)
                requires
                    now == dx * (b - a),
                    -dx <= 2 * now <= dx,
                    now != 0,
                    dx >= 0,
            ;
            assert(now == 0) by (nonlinear_arith)
                requires
                    now == dx * (b - a),
                    b - a == 0,
            ;
        }
    }
}

/// The pixels from a close one on are close.
proof fn lemma_all_close(l: Line, a: int, b: int, x: int, y: int)
    requires
        0 <= a <= l.dx(),
        0 <= b <= l.dy(),
        close(l, a, b),
        l.passes_from(a, b, x, y),
    ensures
        exists|c: int, d: int|
            0 <= c <= l.dx() && 0 <= d <= l.dy() && #[trigger] close(l, c, d) && x == l.x1 + l.sx()
                * c && y == l.y1 + l.sy() * d,
    decreases l.dx() - a + l.dy() - b,
{
    if x == l.x1 + l.sx() * a && y == l.y1 + l.sy() * b {
        assert(close(l, a, b));
    } else {
        lemma_step(l, a, b);
        lemma_stays_close(l, a, b);
        lemma_all_close(
            l,
            if l.across(a, b) {
                a + 1
            } else {
                a
            },
            if l.along(a, b) {
                b + 1
            } else {
                b
            },
            x,
            y,
        );
    }
}

/// The magnitude of a number.
pub open spec fn size(v: int) -> int {
    if v < 0 {
        -v
    } else {
        v
    }
}

/// A line is straight: no pixel of it is more than half a pixel off the line between
/// its ends, measured along the shorter extent.
pub proof fn lemma_a_line_is_straight(l: Line, x: int, y: int)
    requires
        l.passes(x, y),
    ensures
        ({
            let (w, h) = (size(l.x2 - l.x1), size(l.y2 - l.y1));
            let apart = w * size(y - l.y1) - h * size(x - l.x1);
            &&& w >= h ==> 2 * size(apart) <= w
            &&& h >= w ==> 2 * size(apart) <= h
        }),
{
    assert(off(l, 0, 0) == 0) by {
        assert(l.dx() * 0 == 0 && l.dy() * 0 == 0) by (nonlinear_arith);
    }
    assert(close(l, 0, 0));
    lemma_all_close(l, 0, 0, x, y);
    let (c, d) = choose|c: int, d: int|
        0 <= c <= l.dx() && 0 <= d <= l.dy() && #[trigger] close(l, c, d) && x == l.x1 + l.sx() * c
            && y == l.y1 + l.sy() * d;
    assert(1 * c == c && -1 * c == -c && 1 * d == d && -1 * d == -d) by (nonlinear_arith);
    assert(size(x - l.x1) == c && size(y - l.y1) == d);
}

/// From `a` steps across on, every further column is passed.
proof fn lemma_columns(l: Line, a: int, b: int, k: int)
    requires
        0 <= a <= k <= l.dx(),
        0 <= b <= l.dy(),
        l.dx() >= l.dy(),
        close(l, a, b),
    ensures
        exists|y: int| #[trigger] l.passes_from(a, b, l.x1 + l.sx() * k, y),
    decreases l.dx() - a + l.dy() - b,
{
    if a == k {
        assert(l.passes_from(a, b, l.x1 + l.sx() * k, l.y1 + l.sy() * b));
    } else {
        lemma_step(l, a, b);
        lemma_stays_close(l, a, b);
        let d = if l.along(a, b) {
            b + 1
        } else {
            b
        };
        lemma_columns(l, a + 1, d, k);
        let y = choose|y: int| #[trigger] l.passes_from(a + 1, d, l.x1 + l.sx() * k, y);
        assert(l.passes_from(a, b, l.x1 + l.sx() * k, y));
    }
}

/// From `b` steps down or up on, every further row is passed.
proof fn lemma_rows(l: Line, a: int, b: int, k: int)
    requires
        0 <= a <= l.dx(),
        0 <= b <= k <= l.dy(),
        l.dy() > l.dx(),
        close(l, a, b),
    ensures
        exists|x: int| #[trigger] l.passes_from(a, b, x, l.y1 + l.sy() * k),
    decreases l.dx() - a + l.dy() - b,
{
    if b == k {
        assert(l.passes_from(a, b, l.x1 + l.sx() * a, l.y1 + l.sy() * k));
    } else {
        lemma_step(l, a, b);
        lemma_stays_close(l, a, b);
        let c = if l.across(a, b) {
            a + 1
        } else {
            a
        };
        lemma_rows(l, c, b + 1, k);
        let x = choose|x: int| #[trigger] l.passes_from(c, b + 1, x, l.y1 + l.sy() * k);
        assert(l.passes_from(a, b, x, l.y1 + l.sy() * k));
    }
}

/// A line is unbroken: one that is wider than high has a pixel in every column between
/// its ends, and one that is higher than wide in every row.
pub proof fn lemma_a_line_is_unbroken(l: Line, at: int)
    ensures
        size(l.x2 - l.x1) >= size(l.y2 - l.y1) && (l.x1 <= at <= l.x2 || l.x2 <= at <= l.x1)
            ==> exists|y: int| #[trigger] l.passes(at, y),
        size(l.y2 - l.y1) > size(l.x2 - l.x1) && (l.y1 <= at <= l.y2 || l.y2 <= at <= l.y1)
            ==> exists|x: int| #[trigger] l.passes(x, at),
{
    assert(l.dx() * 0 == 0 && l.dy() * 0 == 0) by (nonlinear_arith);
    assert(close(l, 0, 0));
    if l.dx() >= l.dy() && (l.x1 <= at <= l.x2 || l.x2 <= at <= l.x1) {
        let k = size(at - l.x1);
        assert(1 * k == k && -1 * k == -k) by (nonlinear_arith);
        lemma_columns(l, 0, 0, k);
        let y = choose|y: int| #[trigger] l.passes_from(0, 0, l.x1 + l.sx() * k, y);
        assert(k == 0 ==> at == l.x1);
        assert(l.x1 + l.sx() * k == at);
        assert(l.passes(at, y));
    }
    if l.dy() > l.dx() && (l.y1 <= at <= l.y2 || l.y2 <= at <= l.y1) {
        let k = size(at - l.y1);
        assert(1 * k == k && -1 * k == -k) by (nonlinear_arith);
        lemma_rows(l, 0, 0, k);
        let x = choose|x: int| #[trigger] l.passes_from(0, 0, x, l.y1 + l.sy() * k);
        assert(l.y1 + l.sy() * k == at);
        assert(l.passes(x, at));
    }
}

} // verus!
