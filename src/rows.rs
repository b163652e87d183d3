use vstd::prelude::*;

use crate::geometry::Size;
use crate::selection::Resampling;

verus! {

/// The source row nearest to output row `row` of a vertically doubled plane.
pub open spec fn near_row(row: int) -> int {
    row / 2
}

/// The source row blended into output row `row` with weight one quarter: the
/// row above the near one for even output rows, the row below for odd ones,
/// clamped to the plane's `height` rows.
pub open spec fn far_row(row: int, height: int) -> int {
    let f = if row % 2 == 1 {
        row / 2 + 1
    } else {
        row / 2 - 1
    };
    if f < 0 {
        0
    } else if f > height - 1 {
        height - 1
    } else {
        f
    }
}

/// Sample `j` of a row of `width` samples, starting at `base` in `plane`,
/// doubled horizontally: each source sample is weighted 3:1 with its left
/// (even `j`) or right (odd `j`) neighbour and rounded, and the two outermost
/// samples are replicated.
pub open spec fn h2_sample(plane: Seq<u8>, base: int, width: int, j: int) -> int {
    let i = j / 2;
    let c = plane[base + i] as int;
    if j % 2 == 0 {
        if i == 0 {
            c
        } else {
            (3 * c + plane[base + i - 1] + 2) / 4
        }
    } else {
        if i == width - 1 {
            c
        } else {
            (3 * c + plane[base + i + 1] + 2) / 4
        }
    }
}

/// Column `i` of the near row weighted three times against the far row, for
/// output row `row` of a vertically doubled plane, before rounding.
pub open spec fn column_blend(plane: Seq<u8>, stride: int, row: int, height: int, i: int) -> int {
    3 * plane[near_row(row) * stride + i] + plane[far_row(row, height) * stride + i]
}

/// Sample `i` of output row `row` of a vertically doubled plane.
pub open spec fn v2_sample(plane: Seq<u8>, stride: int, row: int, height: int, i: int) -> int {
    (column_blend(plane, stride, row, height, i) + 2) / 4
}

/// Sample `j` of output row `row` of a plane doubled in both directions: the
/// vertical blends of neighbouring columns are weighted 3:1 and rounded once,
/// and the two outermost samples take the vertical blend alone.
pub open spec fn hv2_sample(
    plane: Seq<u8>,
    stride: int,
    row: int,
    height: int,
    width: int,
    j: int,
) -> int {
    let i = j / 2;
    let t = column_blend(plane, stride, row, height, i);
    if j % 2 == 0 {
        if i == 0 {
            (t + 2) / 4
        } else {
            (3 * t + column_blend(plane, stride, row, height, i - 1) + 8) / 16
        }
    } else {
        if i == width - 1 {
            (t + 2) / 4
        } else {
            (3 * t + column_blend(plane, stride, row, height, i + 1) + 8) / 16
        }
    }
}

proof fn lemma_shr_2(x: u32)
    by (bit_vector)
    ensures
        x >> 2 == x / 4,
{
}

proof fn lemma_shr_4(x: u32)
    by (bit_vector)
    ensures
        x >> 4 == x / 16,
{
}

/// The near and far source rows of output row `row` of a vertically doubled
/// plane of `height` rows.
pub fn vertical_source_rows(row: usize, height: usize) -> (r: (usize, usize))
    requires
        height > 0,
    ensures
        r.0 == near_row(row as int),
        r.1 == far_row(row as int, height as int),
{
    let near = row / 2;
    let far = if row % 2 == 1 {
        if near < height - 1 {
            near + 1
        } else {
            height - 1
        }
    } else if near == 0 {
        0
    } else if near - 1 < height - 1 {
        near - 1
    } else {
        height - 1
    };
    (near, far)
}

/// Copies `output_width` samples of row `row` unchanged.
pub(crate) fn resample_row_1(
    input: &[u8],
    row_stride: usize,
    row: usize,
    output_width: usize,
    output: &mut [u8],
)
    requires
        row * row_stride + output_width <= input@.len(),
        output_width <= old(output)@.len(),
    ensures
        final(output)@.len() == old(output)@.len(),
        forall|x: int|
            0 <= x < output_width ==> final(output)@[x] == input@[row * row_stride + x],
        forall|j: int|
            output_width <= j < old(output)@.len() ==> final(output)@[j] == old(output)@[j],
{
    let input_len = input.len();
    let base = row * row_stride;
    let mut i: usize = 0;
    while i < output_width
        invariant
            i <= output_width,
            base == row * row_stride,
            base + output_width <= input_len,
            input_len == input@.len(),
            output_width <= output@.len(),
            output@.len() == old(output)@.len(),
            forall|x: int| 0 <= x < i ==> output@[x] == input@[base + x],
            forall|j: int| output_width <= j < output@.len() ==> output@[j] == old(output)@[j],
        decreases output_width - i,
    {
        output[i] = input[base + i];
        i = i + 1;
    }
}

/// Rounds `(3 * near + far + 2) / 4` with the shift the format uses.
fn blend_3_1(near: u8, far: u8) -> (r: u8)
    ensures
        r as int == (3 * near + far + 2) / 4,
{
    let x: u32 = 3 * near as u32 + far as u32 + 2;
    proof {
        lemma_shr_2(x);
    }
    (x >> 2) as u8
}

/// Doubles row `row`, of `width` samples, horizontally into the first
/// `2 * width` samples of `output`.
pub(crate) fn resample_row_h_2_bilinear(
    input: &[u8],
    width: usize,
    row_stride: usize,
    row: usize,
    output: &mut [u8],
)
    requires
        width >= 1,
        row * row_stride + width <= input@.len(),
        2 * width <= old(output)@.len(),
    ensures
        final(output)@.len() == old(output)@.len(),
        forall|j: int|
            0 <= j < 2 * width ==> final(output)@[j] as int == h2_sample(
                input@,
                row * row_stride,
                width as int,
                j,
            ),
        forall|j: int|
            2 * width <= j < old(output)@.len() ==> final(output)@[j] == old(output)@[j],
{
    let input_len = input.len();
    let base = row * row_stride;
    if width == 1 {
        output[0] = input[base];
        output[1] = input[base];
        return;
    }
    output[0] = input[base];
    output[1] = blend_3_1(input[base], input[base + 1]);

    let output_len = output.len();
    let mut i: usize = 1;
    while i < width - 1
        invariant
            1 <= i <= width - 1,
            output_len == output@.len(),
            base == row * row_stride,
            base + width <= input_len,
            input_len == input@.len(),
            2 * width <= output@.len(),
            output@.len() == old(output)@.len(),
            forall|j: int|
                0 <= j < 2 * i ==> output@[j] as int == h2_sample(
                    input@,
                    base as int,
                    width as int,
                    j,
                ),
            forall|j: int| 2 * width <= j < output@.len() ==> output@[j] == old(output)@[j],
        decreases width - 1 - i,
    {
        let sample = input[base + i];
        output[i * 2] = blend_3_1(sample, input[base + i - 1]);
        output[i * 2 + 1] = blend_3_1(sample, input[base + i + 1]);
        i = i + 1;
    }

    let last = base + width - 1;
    output[(width - 1) * 2] = blend_3_1(input[last], input[last - 1]);
    output[(width - 1) * 2 + 1] = input[last];
}

/// Writes output row `row` of a vertically doubled plane of `height` rows:
/// `output_width` samples, each the near row's weighted 3:1 with the far
/// row's and rounded.
pub(crate) fn resample_row_v_2_bilinear(
    input: &[u8],
    height: usize,
    row_stride: usize,
    row: usize,
    output_width: usize,
    output: &mut [u8],
)
    requires
        height >= 1,
        near_row(row as int) * row_stride + output_width <= input@.len(),
        far_row(row as int, height as int) * row_stride + output_width <= input@.len(),
        output_width <= old(output)@.len(),
    ensures
        final(output)@.len() == old(output)@.len(),
        forall|x: int|
            0 <= x < output_width ==> final(output)@[x] as int == v2_sample(
                input@,
                row_stride as int,
                row as int,
                height as int,
                x,
            ),
        forall|j: int|
            output_width <= j < old(output)@.len() ==> final(output)@[j] == old(output)@[j],
{
    let input_len = input.len();
    let (near, far) = vertical_source_rows(row, height);
    let near_base = near * row_stride;
    let far_base = far * row_stride;

    let mut i: usize = 0;
    while i < output_width
        invariant
            i <= output_width,
            near == near_row(row as int),
            far == far_row(row as int, height as int),
            near_base == near * row_stride,
            far_base == far * row_stride,
            near_base + output_width <= input_len,
            far_base + output_width <= input_len,
            input_len == input@.len(),
            output_width <= output@.len(),
            output@.len() == old(output)@.len(),
            forall|x: int|
                0 <= x < i ==> output@[x] as int == v2_sample(
                    input@,
                    row_stride as int,
                    row as int,
                    height as int,
                    x,
                ),
            forall|j: int| output_width <= j < output@.len() ==> output@[j] == old(output)@[j],
        decreases output_width - i,
    {
        output[i] = blend_3_1(input[near_base + i], input[far_base + i]);
        i = i + 1;
    }
}

/// Rounds a vertical blend `t` (at most `4 * 255`) back to a sample.
fn round_blend(t: u32) -> (r: u8)
    requires
        t <= 1020,
    ensures
        r as int == (t + 2) / 4,
{
    let x: u32 = t + 2;
    proof {
        lemma_shr_2(x);
    }
    (x >> 2) as u8
}

/// Weights the vertical blend `t` three times against its neighbour `u` and
/// rounds back to a sample.
fn round_blend_pair(t: u32, u: u32) -> (r: u8)
    requires
        t <= 1020,
        u <= 1020,
    ensures
        r as int == (3 * t + u + 8) / 16,
{
    let x: u32 = 3 * t + u + 8;
    proof {
        lemma_shr_4(x);
    }
    (x >> 4) as u8
}

/// Writes output row `row` of a plane of `width` by `height` samples doubled
/// in both directions, into the first `2 * width` samples of `output`.
pub(crate) fn resample_row_hv_2_bilinear(
    input: &[u8],
    width: usize,
    height: usize,
    row_stride: usize,
    row: usize,
    output: &mut [u8],
)
    requires
        width >= 1,
        height >= 1,
        near_row(row as int) * row_stride + width <= input@.len(),
        far_row(row as int, height as int) * row_stride + width <= input@.len(),
        2 * width <= old(output)@.len(),
    ensures
        final(output)@.len() == old(output)@.len(),
        forall|j: int|
            0 <= j < 2 * width ==> final(output)@[j] as int == hv2_sample(
                input@,
                row_stride as int,
                row as int,
                height as int,
                width as int,
                j,
            ),
        forall|j: int|
            2 * width <= j < old(output)@.len() ==> final(output)@[j] == old(output)@[j],
{
    let input_len = input.len();
    let output_len = output.len();
    let (near, far) = vertical_source_rows(row, height);
    let near_base = near * row_stride;
    let far_base = far * row_stride;

    if width == 1 {
        let value = blend_3_1(input[near_base], input[far_base]);
        output[0] = value;
        output[1] = value;
        return;
    }

    let mut t1: u32 = 3 * input[near_base] as u32 + input[far_base] as u32;
    output[0] = round_blend(t1);

    let mut i: usize = 1;
    while i < width
        invariant
            1 <= i <= width,
            near == near_row(row as int),
            far == far_row(row as int, height as int),
            near_base == near * row_stride,
            far_base == far * row_stride,
            near_base + width <= input_len,
            far_base + width <= input_len,
            input_len == input@.len(),
            2 * width <= output_len,
            output_len == output@.len(),
            output@.len() == old(output)@.len(),
            t1 as int == column_blend(
                input@,
                row_stride as int,
                row as int,
                height as int,
                i - 1,
            ),
            forall|j: int|
                0 <= j < 2 * i - 1 ==> output@[j] as int == hv2_sample(
                    input@,
                    row_stride as int,
                    row as int,
                    height as int,
                    width as int,
                    j,
                ),
            forall|j: int| 2 * width <= j < output@.len() ==> output@[j] == old(output)@[j],
        decreases width - i,
    {
        let t0 = t1;
        t1 = 3 * input[near_base + i] as u32 + input[far_base + i] as u32;
        output[i * 2 - 1] = round_blend_pair(t0, t1);
        output[i * 2] = round_blend_pair(t1, t0);
        i = i + 1;
    }

    output[width * 2 - 1] = round_blend(t1);
}

/// Sample `x` of output row `row` for a component resampled by `method`,
/// whose plane `plane` has `size` and rows `stride` bytes apart.
pub open spec fn resampled_sample(
    method: Resampling,
    plane: Seq<u8>,
    size: Size,
    stride: int,
    row: int,
    x: int,
) -> int {
    match method {
        Resampling::Identity => plane[row * stride + x] as int,
        Resampling::Horizontal2 => h2_sample(plane, row * stride, size.width as int, x),
        Resampling::Vertical2 => v2_sample(plane, stride, row, size.height as int, x),
        Resampling::HorizontalVertical2 => hv2_sample(
            plane,
            stride,
            row,
            size.height as int,
            size.width as int,
            x,
        ),
    }
}

/// The number of samples at the start of its output buffer that `method`
/// writes for a row `output_width` samples wide of a plane of `size`.
pub open spec fn written_width(method: Resampling, size: Size, output_width: int) -> int {
    match method {
        Resampling::Identity | Resampling::Vertical2 => output_width,
        Resampling::Horizontal2 | Resampling::HorizontalVertical2 => 2 * size.width,
    }
}

/// Output row `row`, of `output_width` samples, can be produced by `method`
/// from a plane of `plane_len` bytes: the source rows it reads are in the
/// plane, and a horizontally doubled row is `output_width` samples wide to
/// within one.
pub open spec fn row_readable(
    method: Resampling,
    plane_len: int,
    size: Size,
    stride: int,
    row: int,
    output_width: int,
) -> bool {
    let w = size.width as int;
    let h = size.height as int;
    match method {
        Resampling::Identity => row * stride + output_width <= plane_len,
        Resampling::Horizontal2 => {
            &&& w >= 1
            &&& output_width <= 2 * w <= output_width + 1
            &&& row * stride + w <= plane_len
        },
        Resampling::Vertical2 => {
            &&& h >= 1
            &&& near_row(row) < h
            &&& near_row(row) * stride + output_width <= plane_len
            &&& far_row(row, h) * stride + output_width <= plane_len
        },
        Resampling::HorizontalVertical2 => {
            &&& w >= 1
            &&& h >= 1
            &&& output_width <= 2 * w <= output_width + 1
            &&& near_row(row) < h
            &&& near_row(row) * stride + w <= plane_len
            &&& far_row(row, h) * stride + w <= plane_len
        },
    }
}

/// Writes the first `output_width` samples of output row `row` of a
/// component resampled by `method` into `output`, which has room for one
/// sample more.
pub(crate) fn resample_row(
    method: Resampling,
    input: &[u8],
    size: Size,
    row_stride: usize,
    row: usize,
    output_width: usize,
    output: &mut [u8],
)
    requires
        row_readable(
            method,
            input@.len() as int,
            size,
            row_stride as int,
            row as int,
            output_width as int,
        ),
        output_width + 1 <= old(output)@.len(),
    ensures
        final(output)@.len() == old(output)@.len(),
        forall|x: int|
            0 <= x < output_width ==> final(output)@[x] as int == resampled_sample(
                method,
                input@,
                size,
                row_stride as int,
                row as int,
                x,
            ),
        forall|j: int|
            written_width(method, size, output_width as int) <= j < old(output)@.len()
                ==> final(output)@[j] == old(output)@[j],
{
    match method {
        Resampling::Identity => resample_row_1(input, row_stride, row, output_width, output),
        Resampling::Horizontal2 => resample_row_h_2_bilinear(
            input,
            size.width,
            row_stride,
            row,
            output,
        ),
        Resampling::Vertical2 => resample_row_v_2_bilinear(
            input,
            size.height,
            row_stride,
            row,
            output_width,
            output,
        ),
        Resampling::HorizontalVertical2 => resample_row_hv_2_bilinear(
            input,
            size.width,
            size.height,
            row_stride,
            row,
            output,
        ),
    }
}

} // verus!
