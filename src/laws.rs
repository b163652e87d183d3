use vstd::arithmetic::mul::lemma_mul_nonnegative;
use vstd::prelude::*;

use crate::geometry::{Component, Size};
use crate::rows::{column_blend, far_row, near_row, resampled_sample, row_readable};
use crate::selection::{component_resampling, factor, max_factor_of, Resampling};

verus! {

/// Every sample of `plane` is `k`.
pub open spec fn constant_plane(plane: Seq<u8>, k: u8) -> bool {
    forall|j: int| 0 <= j < plane.len() ==> plane[j] == k
}

/// A component kept at full resolution passes its stored rows through
/// unchanged: sample `x` of output row `row` is byte `x` of stored row
/// `row`, whatever the width of the row.
pub proof fn lemma_identity_copies_row(plane: Seq<u8>, size: Size, stride: usize, row: usize, x: int)
    ensures
        resampled_sample(Resampling::Identity, plane, size, stride as int, row as int, x)
            == plane[row * stride + x] as int,
{
}

/// A horizontally doubled row of a single sample is that sample, twice.
pub proof fn lemma_single_sample_doubled(plane: Seq<u8>, size: Size, stride: usize, row: usize)
    requires
        size.width == 1,
    ensures
        resampled_sample(Resampling::Horizontal2, plane, size, stride as int, row as int, 0)
            == plane[row * stride] as int,
        resampled_sample(Resampling::Horizontal2, plane, size, stride as int, row as int, 1)
            == plane[row * stride] as int,
{
}

/// The near and far source rows of every output row of a vertically doubled
/// plane lie in the plane, and are the same row or neighbours.
pub proof fn lemma_source_rows_in_plane(row: int, height: int)
    requires
        height > 0,
        0 <= row < 2 * height,
    ensures
        0 <= near_row(row) < height,
        0 <= far_row(row, height) < height,
        near_row(row) - 1 <= far_row(row, height) <= near_row(row) + 1,
{
}

/// Source row `r` starts at a nonnegative offset.
proof fn lemma_row_offset_nonnegative(r: int, stride: int)
    requires
        r >= 0,
        stride >= 0,
    ensures
        r * stride >= 0,
{
    lemma_mul_nonnegative(r, stride);
}

/// Vertical doubling of a plane whose samples are all `k` gives `k` for
/// every sample of every output row: the rounding is exact.
pub proof fn lemma_vertical_constant(
    plane: Seq<u8>,
    k: u8,
    size: Size,
    stride: usize,
    row: usize,
    output_width: usize,
    x: int,
)
    requires
        constant_plane(plane, k),
        row_readable(
            Resampling::Vertical2,
            plane.len() as int,
            size,
            stride as int,
            row as int,
            output_width as int,
        ),
        0 <= x < output_width,
    ensures
        resampled_sample(Resampling::Vertical2, plane, size, stride as int, row as int, x) == k,
{
    let h = size.height as int;
    lemma_source_rows_in_plane(row as int, h);
    lemma_row_offset_nonnegative(near_row(row as int), stride as int);
    lemma_row_offset_nonnegative(far_row(row as int, h), stride as int);
}

/// Doubling in both directions a plane whose samples are all `k` gives `k`
/// for every sample of every output row, the two outermost and those of a
/// single-column plane included.
pub proof fn lemma_both_directions_constant(
    plane: Seq<u8>,
    k: u8,
    size: Size,
    stride: usize,
    row: usize,
    output_width: usize,
    x: int,
)
    requires
        constant_plane(plane, k),
        row_readable(
            Resampling::HorizontalVertical2,
            plane.len() as int,
            size,
            stride as int,
            row as int,
            output_width as int,
        ),
        0 <= x < output_width,
    ensures
        resampled_sample(
            Resampling::HorizontalVertical2,
            plane,
            size,
            stride as int,
            row as int,
            x,
        ) == k,
{
    let h = size.height as int;
    let w = size.width as int;
    lemma_source_rows_in_plane(row as int, h);
    lemma_row_offset_nonnegative(near_row(row as int), stride as int);
    lemma_row_offset_nonnegative(far_row(row as int, h), stride as int);
    assert forall|i: int| 0 <= i < w implies column_blend(
        plane,
        stride as int,
        row as int,
        h,
        i,
    ) == 4 * k by {}
}

/// The largest factor of components that all have factor `f` is `f`.
proof fn lemma_max_of_equal(cs: Seq<Component>, horizontal: bool, f: int)
    requires
        cs.len() > 0,
        f >= 0,
        forall|i: int| 0 <= i < cs.len() ==> factor(#[trigger] cs[i], horizontal) == f,
    ensures
        max_factor_of(cs, horizontal) == f,
    decreases cs.len(),
{
    if cs.len() > 1 {
        let rest = cs.drop_last();
        assert forall|i: int| 0 <= i < rest.len() implies factor(#[trigger] rest[i], horizontal)
            == f by {
            assert(rest[i] == cs[i]);
        }
        lemma_max_of_equal(rest, horizontal, f);
    } else {
        assert(max_factor_of(cs.drop_last(), horizontal) == 0);
    }
    assert(factor(cs[cs.len() - 1], horizontal) == f);
}

/// When every component has the same sampling factors, every component is
/// kept at full resolution.
pub proof fn lemma_equal_factors_select_identity(cs: Seq<Component>)
    requires
        cs.len() > 0,
        forall|i: int| 0 <= i < cs.len() ==> (#[trigger] cs[i]).factors_positive(),
        forall|i: int|
            0 <= i < cs.len() ==> {
                &&& (#[trigger] cs[i]).horizontal_sampling_factor == cs[0].horizontal_sampling_factor
                &&& cs[i].vertical_sampling_factor == cs[0].vertical_sampling_factor
            },
    ensures
        forall|i: int|
            0 <= i < cs.len() ==> #[trigger] component_resampling(cs, i) == Some(
                Resampling::Identity,
            ),
{
    lemma_max_of_equal(cs, true, factor(cs[0], true));
    lemma_max_of_equal(cs, false, factor(cs[0], false));
    assert forall|i: int| 0 <= i < cs.len() implies #[trigger] component_resampling(cs, i) == Some(
        Resampling::Identity,
    ) by {
        let h = factor(cs[0], true);
        let v = factor(cs[0], false);
        assert(h % h == 0 && h / h == 1) by (nonlinear_arith)
            requires
                h > 0,
        ;
        assert(v % v == 0 && v / v == 1) by (nonlinear_arith)
            requires
                v > 0,
        ;
    }
}

} // verus!
