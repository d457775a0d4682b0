//! Copying a framebuffer to the screen, scaled if their sizes differ.
use vstd::arithmetic::div_mod::{lemma_div_is_ordered, lemma_fundamental_div_mod_converse};
use vstd::arithmetic::mul::lemma_mul_inequality;
use vstd::prelude::*;

verus! {

/// The source coordinate that target coordinate `d` of `dst` shows, of `src`.
pub open spec fn nearest(d: int, src: int, dst: int) -> int {
    d * src / dst
}

/// Pixel (`x`, `y`) of a picture of `dst_w` by `dst_h` that shows `src`, which
/// is `src_w` by `src_h`.
pub open spec fn scaled_pixel(
    src: Seq<u32>,
    src_w: int,
    src_h: int,
    dst_w: int,
    dst_h: int,
    x: int,
    y: int,
) -> u32 {
    src[nearest(y, src_h, dst_h) * src_w + nearest(x, src_w, dst_w)]
}

/// A target coordinate shows a source coordinate that exists.
proof fn lemma_nearest_in_range(d: int, src: int, dst: int)
    requires
        0 <= d < dst,
        0 < src,
    ensures
        0 <= nearest(d, src, dst) < src,
{
    assert(0 <= d * src < dst * src) by (nonlinear_arith)
        requires
            0 <= d < dst,
            0 < src,
    ;
    assert(0 <= (d * src) / dst < src) by (nonlinear_arith)
        requires
            0 <= d * src < dst * src,
            0 < dst,
            0 < src,
    ;
}

/// Source coordinate `s` of `src` covers the place of target coordinate `d` of
/// `dst`: measured in parts of the whole, the target pixel starts on it.
pub open spec fn covers(s: int, d: int, src: int, dst: int) -> bool {
    &&& 0 <= s < src
    &&& s * dst <= d * src < (s + 1) * dst
}

/// Only one source coordinate covers a target coordinate.
pub proof fn lemma_cover_is_one(s: int, t: int, d: int, src: int, dst: int)
    requires
        0 < dst,
        covers(s, d, src, dst),
        covers(t, d, src, dst),
    ensures
        s == t,
{
    assert(s < t + 1 && t < s + 1) by (nonlinear_arith)
        requires
            0 < dst,
            s * dst < (t + 1) * dst,
            t * dst < (s + 1) * dst,
    ;
}

/// A target coordinate shows the source coordinate that covers it.
pub proof fn lemma_nearest_covers(d: int, src: int, dst: int)
    requires
        0 <= d < dst,
        0 < src,
    ensures
        covers(nearest(d, src, dst), d, src, dst),
{
    let q = nearest(d, src, dst);
    lemma_nearest_in_range(d, src, dst);
    vstd::arithmetic::div_mod::lemma_fundamental_div_mod(d * src, dst);
    assert(q * dst == dst * q && (q + 1) * dst == dst * q + dst) by (nonlinear_arith);
}

/// The picture starts with its first row and column, ends with its last ones
/// where it is not shrunk, and is not turned round: what is further right or down
/// on the screen shows what is no further left or up in the picture.
pub proof fn lemma_scaling_keeps_the_picture_in_order(d: int, e: int, src: int, dst: int)
    requires
        0 <= d <= e < dst,
        0 < src,
    ensures
        nearest(0, src, dst) == 0,
        nearest(d, src, dst) <= nearest(e, src, dst),
        src <= dst ==> nearest(dst - 1, src, dst) == src - 1,
{
    lemma_nearest_covers(0, src, dst);
    assert(covers(0, 0, src, dst)) by {
        assert(0 * src == 0 && 0 * dst == 0 && (0 + 1) * dst == dst) by (nonlinear_arith);
    }
    lemma_cover_is_one(nearest(0, src, dst), 0, 0, src, dst);
    lemma_nearest_covers(d, src, dst);
    lemma_nearest_covers(e, src, dst);
    let (p, q) = (nearest(d, src, dst), nearest(e, src, dst));
    assert(p < q + 1) by (nonlinear_arith)
        requires
            0 < dst,
            0 < src,
            d <= e,
            p * dst <= d * src,
            e * src < (q + 1) * dst,
    ;
    if src <= dst {
        assert(covers(src - 1, dst - 1, src, dst)) by {
            assert((src - 1) * dst <= (dst - 1) * src && (dst - 1) * src < src * dst)
                by (nonlinear_arith)
                requires
                    0 < src <= dst,
            ;
        }
        lemma_nearest_covers(dst - 1, src, dst);
        lemma_cover_is_one(nearest(dst - 1, src, dst), src - 1, dst - 1, src, dst);
    }
}

/// On a screen that is `k` times as wide or high as the picture, each pixel of the
/// picture is shown by `k` neighbours, one behind the other.
pub proof fn lemma_whole_multiples_repeat_each_pixel(s: int, j: int, src: int, k: int)
    requires
        0 <= s < src,
        0 <= j < k,
    ensures
        nearest(s * k + j, src, src * k) == s,
{
    let (d, dst) = (s * k + j, src * k);
    assert(0 <= d < dst && s * dst <= d * src < (s + 1) * dst) by (nonlinear_arith)
        requires
            0 <= s < src,
            0 <= j < k,
            d == s * k + j,
            dst == src * k,
    ;
    lemma_nearest_covers(d, src, dst);
    lemma_cover_is_one(nearest(d, src, dst), s, d, src, dst);
}

/// Pixel (`x`, `y`) of the screen shows the pixel of the picture that covers it.
pub open spec fn shows(
    src: Seq<u32>,
    src_w: int,
    src_h: int,
    dst: Seq<u32>,
    dst_w: int,
    dst_h: int,
    stride: int,
    x: int,
    y: int,
) -> bool {
    exists|sx: int, sy: int| #[trigger]
        covers(sx, x, src_w, dst_w) && #[trigger] covers(sy, y, src_h, dst_h) && dst[y * stride
            + x] == src[sy * src_w + sx]
}

/// A pixel lies inside its picture.
proof fn lemma_pixel_in_range(x: int, y: int, w: int, h: int)
    requires
        0 <= x < w,
        0 <= y < h,
    ensures
        0 <= y * w + x < w * h,
{
    assert(0 <= y * w && y * w + w <= w * h) by (nonlinear_arith)
        requires
            0 <= y < h,
            0 < w,
    ;
}

/// Where row `y` and column `x` of lines of `stride` pixels are.
proof fn lemma_row_and_column(x: int, y: int, stride: int)
    requires
        0 <= x < stride,
        0 <= y,
    ensures
        (y * stride + x) / stride == y,
        (y * stride + x) % stride == x,
{
    lemma_fundamental_div_mod_converse(y * stride + x, stride, y, x);
}

/// Copies a picture of `src_w` by `src_h` pixels to a screen of `dst_w` by
/// `dst_h` pixels and `dst_stride` pixels per line. Pictures of the same size are
/// copied as they are, pixel behind pixel; otherwise each pixel of the screen
/// takes the nearest one of the picture.
pub fn perform_software_scaling(
    src: &[u32],
    src_w: u32,
    src_h: u32,
    dst: &mut [u32],
    dst_w: u32,
    dst_h: u32,
    dst_stride: u32,
)
    requires
        src_w * src_h <= src@.len(),
        src_w == dst_w && src_h == dst_h ==> src_w * src_h <= old(dst)@.len(),
        !(src_w == dst_w && src_h == dst_h) && dst_w > 0 && dst_h > 0 ==> {
            &&& src_w > 0 && src_h > 0
            &&& dst_w <= dst_stride
            &&& (dst_h - 1) * dst_stride + dst_w <= old(dst)@.len()
        },
    ensures
        final(dst)@.len() == old(dst)@.len(),
        src_w == dst_w && src_h == dst_h ==> forall|i: int|
            0 <= i < old(dst)@.len() ==> #[trigger] final(dst)@[i] == (if i < src_w * src_h {
                src@[i]
            } else {
                old(dst)@[i]
            }),
        !(src_w == dst_w && src_h == dst_h) && dst_w > 0 && dst_h > 0 ==> forall|i: int|
            0 <= i < old(dst)@.len() ==> #[trigger] final(dst)@[i] == (if i / (dst_stride as int)
                < dst_h && i % (dst_stride as int) < dst_w {
                scaled_pixel(
                    src@,
                    src_w as int,
                    src_h as int,
                    dst_w as int,
                    dst_h as int,
                    i % (dst_stride as int),
                    i / (dst_stride as int),
                )
            } else {
                old(dst)@[i]
            }),
        !(src_w == dst_w && src_h == dst_h) && (dst_w == 0 || dst_h == 0) ==> final(dst)@ == old(
            dst,
        )@,
        !(src_w == dst_w && src_h == dst_h) ==> forall|x: int, y: int|
            0 <= x < dst_w && 0 <= y < dst_h ==> #[trigger] shows(
                src@,
                src_w as int,
                src_h as int,
                final(dst)@,
                dst_w as int,
                dst_h as int,
                dst_stride as int,
                x,
                y,
            ),
{
    let ghost before = dst@;
    let src_len: usize = src.len();
    let dst_len: usize = dst.len();
    if src_w == dst_w && src_h == dst_h {
        assert(0 <= src_w * src_h <= 0xffff_ffff * 0xffff_ffff) by (nonlinear_arith)
            requires
                0 <= src_w <= 0xffff_ffff,
                0 <= src_h <= 0xffff_ffff,
        ;
        let n: usize = (src_w as u64 * src_h as u64) as usize;
        let mut i: usize = 0;
        while i < n
            invariant
                i <= n,
                n == src_w * src_h,
                n <= src@.len(),
                n <= dst@.len(),
                dst@.len() == before.len(),
                forall|k: int|
                    0 <= k < before.len() ==> #[trigger] dst@[k] == (if k < i {
                        src@[k]
                    } else {
                        before[k]
                    }),
            decreases n - i,
        {
            dst[i] = src[i];
            i += 1;
        }
        return;
    }
    if dst_w == 0 || dst_h == 0 {
        return;
    }
    let ghost stride = dst_stride as int;
    let ghost shown = |i: int|
        if i / stride < dst_h && i % stride < dst_w {
            scaled_pixel(
                src@,
                src_w as int,
                src_h as int,
                dst_w as int,
                dst_h as int,
                i % stride,
                i / stride,
            )
        } else {
            before[i]
        };
    let mut dy: u32 = 0;
    let mut row: usize = 0;
    assert(0int * stride == 0) by (nonlinear_arith);
    while dy < dst_h
        invariant
            dy <= dst_h,
            dst_h > 0,
            0 < dst_w <= dst_stride,
            stride == dst_stride,
            src_w > 0,
            src_h > 0,
            src_w * src_h <= src@.len(),
            src_len == src@.len(),
            dst_len == dst@.len(),
            dst@.len() == before.len(),
            (dst_h - 1) * stride + dst_w <= dst@.len(),
            dy < dst_h ==> row == dy * stride,
            shown == (|i: int|
                if i / stride < dst_h && i % stride < dst_w {
                    scaled_pixel(
                        src@,
                        src_w as int,
                        src_h as int,
                        dst_w as int,
                        dst_h as int,
                        i % stride,
                        i / stride,
                    )
                } else {
                    before[i]
                }),
            forall|i: int|
                0 <= i < before.len() ==> #[trigger] dst@[i] == (if i < dy * stride {
                    shown(i)
                } else {
                    before[i]
                }),
        decreases dst_h - dy,
    {
        let ghost sy_int = nearest(dy as int, src_h as int, dst_h as int);
        proof {
            lemma_nearest_in_range(dy as int, src_h as int, dst_h as int);
            assert(dy * src_h <= 0xffff_ffff * 0xffff_ffff) by (nonlinear_arith)
                requires
                    0 <= dy <= 0xffff_ffff,
                    0 <= src_h <= 0xffff_ffff,
            ;
            assert(0 <= dy * src_h) by (nonlinear_arith);
            assert(row + dst_w <= dst@.len()) by {
                lemma_mul_inequality(dy as int, dst_h - 1, stride);
            }
            lemma_pixel_in_range(0, sy_int, src_w as int, src_h as int);
        }
        let sy: u64 = dy as u64 * src_h as u64 / dst_h as u64;
        assert(sy * src_w <= src_len);
        let src_row: usize = (sy * src_w as u64) as usize;
        let mut dx: u32 = 0;
        while dx < dst_w
            invariant
                dx <= dst_w,
                dy < dst_h,
                0 < dst_w <= dst_stride,
                stride == dst_stride,
                src_w > 0,
                src_h > 0,
                src_w * src_h <= src@.len(),
                sy_int == nearest(dy as int, src_h as int, dst_h as int),
                0 <= sy_int < src_h,
                src_row == sy_int * src_w,
                dst@.len() == before.len(),
                row == dy * stride,
                row + dst_w <= dst@.len(),
                dst_len == dst@.len(),
                src_len == src@.len(),
                shown == (|i: int|
                    if i / stride < dst_h && i % stride < dst_w {
                        scaled_pixel(
                            src@,
                            src_w as int,
                            src_h as int,
                            dst_w as int,
                            dst_h as int,
                            i % stride,
                            i / stride,
                        )
                    } else {
                        before[i]
                    }),
                forall|i: int|
                    0 <= i < before.len() ==> #[trigger] dst@[i] == (if i < row + dx {
                        shown(i)
                    } else {
                        before[i]
                    }),
            decreases dst_w - dx,
        {
            proof {
                lemma_nearest_in_range(dx as int, src_w as int, dst_w as int);
                assert(dx * src_w <= 0xffff_ffff * 0xffff_ffff) by (nonlinear_arith)
                    requires
                        0 <= dx <= 0xffff_ffff,
                        0 <= src_w <= 0xffff_ffff,
                ;
                assert(0 <= dx * src_w) by (nonlinear_arith);
                lemma_pixel_in_range(
                    nearest(dx as int, src_w as int, dst_w as int),
                    sy_int,
                    src_w as int,
                    src_h as int,
                );
                lemma_row_and_column(dx as int, dy as int, stride);
            }
            let sx: usize = (dx as u64 * src_w as u64 / dst_w as u64) as usize;
            dst[row + dx as usize] = src[src_row + sx];
            dx += 1;
        }
        proof {
            assert((dy + 1) * stride == dy * stride + stride) by (nonlinear_arith);
            assert forall|i: int| 0 <= i < before.len() implies #[trigger] dst@[i] == (if i < (dy
                + 1) * stride {
                shown(i)
            } else {
                before[i]
            }) by {
                if row + dst_w <= i < row + stride {
                    lemma_row_and_column(i - row, dy as int, stride);
                }
            }
            if dy + 1 < dst_h {
                lemma_mul_inequality(dy + 1, dst_h - 1, stride);
            }
        }
        dy += 1;
        if dy < dst_h {
            row = row + dst_stride as usize;
        }
    }
    proof {
        assert forall|i: int| dst_h * stride <= i < before.len() implies shown(i) == before[i] by {
            lemma_div_is_ordered(dst_h * stride, i, stride);
            lemma_row_and_column(0, dst_h as int, stride);
        }
        assert forall|x: int, y: int| 0 <= x < dst_w && 0 <= y < dst_h implies #[trigger] shows(
            src@,
            src_w as int,
            src_h as int,
            dst@,
            dst_w as int,
            dst_h as int,
            stride,
            x,
            y,
        ) by {
            lemma_row_and_column(x, y, stride);
            lemma_mul_inequality(y, dst_h - 1, stride);
            assert(0 <= y * stride) by (nonlinear_arith)
                requires
                    0 <= y,
                    0 <= stride,
            ;
            lemma_nearest_covers(x, src_w as int, dst_w as int);
            lemma_nearest_covers(y, src_h as int, dst_h as int);
            let (sx, sy) = (
                nearest(x, src_w as int, dst_w as int),
                nearest(y, src_h as int, dst_h as int),
            );
            assert(y * stride + x < dst_h * stride) by {
                lemma_mul_inequality(y + 1, dst_h as int, stride);
                assert((y + 1) * stride == y * stride + stride) by (nonlinear_arith);
            }
            assert(dst@[y * stride + x] == src@[sy * src_w + sx]);
        }
    }
}

} // verus!
