//! Arithmetic of grids that are stored row by row.
use vstd::arithmetic::div_mod::{lemma_fundamental_div_mod, lemma_fundamental_div_mod_converse};
use vstd::prelude::*;

verus! {

/// A word of a surface lies in one row at one column.
pub proof fn lemma_word(i: int, row: int, col: int, stride: int)
    requires
        0 <= col < stride,
        i == row * stride + col,
    ensures
        i / stride == row,
        i % stride == col,
{
    lemma_fundamental_div_mod_converse(i, stride, row, col);
}

/// The words of part of a row are those of its columns.
pub proof fn lemma_span(i: int, row: int, from: int, to: int, stride: int)
    requires
        0 <= i,
        0 <= from <= to <= stride,
        0 < stride,
    ensures
        row * stride + from <= i < row * stride + to <==> (i / stride == row && from <= i % stride
            < to),
{
    lemma_fundamental_div_mod(i, stride);
    assert(stride * (i / stride) == (i / stride) * stride) by (nonlinear_arith);
    if row * stride + from <= i < row * stride + to {
        lemma_word(i, row, i - row * stride, stride);
    }
}

/// A row of a surface ends before the surface does.
pub proof fn lemma_row_fits(row: int, height: int, stride: int)
    requires
        0 <= row < height,
        0 <= stride,
    ensures
        0 <= row * stride,
        row * stride + stride <= height * stride,
{
    assert(0 <= row * stride && row * stride + stride <= height * stride) by (nonlinear_arith)
        requires
            0 <= row < height,
            0 <= stride,
    ;
}

/// The whole cells of an extent fit into it.
pub proof fn lemma_cells_fit(extent: int, cell: int, n: int)
    requires
        0 <= extent,
        0 < cell,
        0 <= n <= extent / cell,
    ensures
        0 <= n * cell <= extent,
{
    lemma_fundamental_div_mod(extent, cell);
    assert(0 <= n * cell <= cell * (extent / cell)) by (nonlinear_arith)
        requires
            0 <= n <= extent / cell,
            0 < cell,
    ;
}

} // verus!
