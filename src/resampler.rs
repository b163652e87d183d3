use vstd::arithmetic::div_mod::{
    lemma_fundamental_div_mod, lemma_fundamental_div_mod_converse, lemma_multiply_divide_lt,
};
use vstd::prelude::*;

use crate::geometry::{Component, Size};
use crate::rows::{resample_row, resampled_sample, row_readable};
use crate::selection::{
    choose_resampling, component_resampling, max_factor, max_factor_of, Resampling,
};

verus! {

/// The plane size of component `c`.
pub open spec fn plane_size(c: Component) -> Size {
    Size { width: c.size.width as usize, height: c.size.height as usize }
}

/// The distance in bytes between the starts of consecutive stored rows of
/// component `c`: eight samples for each block of a block row.
pub open spec fn row_stride_of(c: Component) -> int {
    c.block_size.width * 8
}

/// Position `x * count + i` of an interleaved row of `width` positions holds
/// sample `x` of component `i`.
proof fn lemma_interleaved_position(x: int, i: int, count: int, width: int)
    requires
        0 <= x < width,
        0 <= i < count,
    ensures
        (x * count + i) % count == i,
        (x * count + i) / count == x,
        0 <= x * count + i < width * count,
{
    lemma_fundamental_div_mod_converse(x * count + i, count, x, i);
    assert(0 <= x * count + i < width * count) by (nonlinear_arith)
        requires
            0 <= x < width,
            0 <= i < count,
    ;
}

/// A position before `width * count` belongs to one of the first `width`
/// samples.
proof fn lemma_interleaved_sample(k: int, count: int, width: int)
    requires
        0 <= k < width * count,
        count > 0,
    ensures
        0 <= k / count < width,
        0 <= k % count < count,
{
    assert(width * count == count * width) by (nonlinear_arith);
    lemma_multiply_divide_lt(k, count, width);
}

/// Brings the components of an image up to full resolution, one output row
/// at a time, and interleaves them.
pub struct Resampler {
    resamplings: Vec<Resampling>,
    sizes: Vec<Size>,
    row_strides: Vec<usize>,
}

impl Resampler {
    /// The strategy of each component, in component order.
    pub closed spec fn resamplings(&self) -> Seq<Resampling> {
        self.resamplings@
    }

    /// The plane size of each component.
    pub closed spec fn sizes(&self) -> Seq<Size> {
        self.sizes@
    }

    /// The row stride of each component.
    pub closed spec fn row_strides(&self) -> Seq<usize> {
        self.row_strides@
    }

    /// One strategy, one size and one stride for each component.
    pub open spec fn wf(&self) -> bool {
        &&& self.sizes().len() == self.resamplings().len()
        &&& self.row_strides().len() == self.resamplings().len()
    }

    /// `self` is what `new` makes of the components `cs`.
    pub open spec fn built_from(&self, cs: Seq<Component>) -> bool {
        &&& self.wf()
        &&& self.resamplings().len() == cs.len()
        &&& forall|i: int|
            0 <= i < cs.len() ==> {
                &&& component_resampling(cs, i) == Some(#[trigger] self.resamplings()[i])
                &&& self.sizes()[i] == plane_size(cs[i])
                &&& self.row_strides()[i] == row_stride_of(cs[i])
            }
    }

    /// Picks the strategy of each component of a non-empty list from its
    /// sampling factors and the largest factors of the image, or returns
    /// `None` where any component's scale-up ratios are not supported.
    pub fn new(components: &[Component]) -> (r: Option<Resampler>)
        requires
            components@.len() > 0,
            forall|i: int| 0 <= i < components@.len() ==> #[trigger] components@[i].factors_positive(),
        ensures
            r is Some <==> forall|i: int|
                0 <= i < components@.len() ==> (#[trigger] component_resampling(components@, i)) is Some,
            r matches Some(s) ==> s.built_from(components@),
    {
        let h_max = max_factor(components, true);
        let v_max = max_factor(components, false);

        let mut resamplings: Vec<Resampling> = Vec::new();
        let mut sizes: Vec<Size> = Vec::new();
        let mut row_strides: Vec<usize> = Vec::new();
        let mut i: usize = 0;
        while i < components.len()
            invariant
                i <= components@.len(),
                h_max == max_factor_of(components@, true),
                v_max == max_factor_of(components@, false),
                forall|k: int| 0 <= k < components@.len() ==> #[trigger] components@[k].factors_positive(),
                resamplings@.len() == i,
                sizes@.len() == i,
                row_strides@.len() == i,
                forall|k: int|
                    0 <= k < i ==> {
                        &&& component_resampling(components@, k) == Some(#[trigger] resamplings@[k])
                        &&& sizes@[k] == plane_size(components@[k])
                        &&& row_strides@[k] == row_stride_of(components@[k])
                    },
            decreases components@.len() - i,
        {
            let c = &components[i];
            match choose_resampling(c, h_max, v_max) {
                Some(method) => resamplings.push(method),
                None => {
                    assert(component_resampling(components@, i as int) is None);
                    return None;
                },
            }
            sizes.push(Size { width: c.size.width as usize, height: c.size.height as usize });
            row_strides.push(c.block_size.width as usize * 8);
            i = i + 1;
        }
        let r = Resampler { resamplings, sizes, row_strides };
        assert forall|k: int| 0 <= k < components@.len() implies (#[trigger] component_resampling(
            components@,
            k,
        )) is Some by {
            assert(component_resampling(components@, k) == Some(r.resamplings()[k]));
        }
        Some(r)
    }
    /// Sample `x` of output row `row` of component `i`, whose plane is
    /// `plane`.
    pub open spec fn sample_of(&self, i: int, plane: Seq<u8>, row: int, x: int) -> int {
        resampled_sample(
            self.resamplings()[i],
            plane,
            self.sizes()[i],
            self.row_strides()[i] as int,
            row,
            x,
        )
    }

    /// Every component can produce output row `row`, `output_width` samples
    /// wide, from its plane in `planes`.
    pub open spec fn row_in_reach(&self, planes: Seq<Vec<u8>>, row: int, output_width: int) -> bool {
        forall|i: int|
            0 <= i < planes.len() ==> row_readable(
                self.resamplings()[i],
                (#[trigger] planes[i])@.len() as int,
                self.sizes()[i],
                self.row_strides()[i] as int,
                row,
                output_width,
            )
    }

    /// Produces output row `row`, `output_width` samples wide, of every
    /// component and writes sample `x` of component `i` to
    /// `output[x * count + i]`, `count` being the number of components.
    /// The rest of `output` is left as it was.
    pub fn resample_and_interleave_row(
        &self,
        component_data: &[Vec<u8>],
        row: usize,
        output_width: usize,
        output: &mut [u8],
    )
        requires
            self.wf(),
            component_data@.len() == self.resamplings().len(),
            output_width * component_data@.len() <= old(output)@.len(),
            self.row_in_reach(component_data@, row as int, output_width as int),
        ensures
            final(output)@.len() == old(output)@.len(),
            forall|x: int, i: int|
                0 <= x < output_width && 0 <= i < component_data@.len() ==> (
                #[trigger] final(output)@[x * component_data@.len() + i]) as int == self.sample_of(
                    i,
                    component_data@[i]@,
                    row as int,
                    x,
                ),
            forall|k: int|
                output_width * component_data@.len() <= k < old(output)@.len() ==> final(output)@[k]
                    == old(output)@[k],
    {
        let component_count = component_data.len();
        let ghost count = component_count as int;
        let ghost width = output_width as int;
        let output_len = output.len();
        let mut line_buffer = vec![0u8; output_width];
        line_buffer.push(0);

        let mut i: usize = 0;
        while i < component_count
            invariant
                self.wf(),
                component_data@.len() == self.resamplings().len(),
                self.row_in_reach(component_data@, row as int, output_width as int),
                count == component_count,
                count == component_data@.len(),
                width == output_width,
                width * count <= output_len,
                output_len == output@.len(),
                output@.len() == old(output)@.len(),
                i <= component_count,
                line_buffer@.len() == output_width + 1,
                forall|k: int|
                    0 <= k < width * count && k % count < i ==> (#[trigger] output@[k]) as int
                        == self.sample_of(k % count, component_data@[k % count]@, row as int, k / count),
                forall|k: int|
                    0 <= k < output_len && !(k < width * count && k % count < i) ==> #[trigger] output@[k]
                        == old(output)@[k],
            decreases component_count - i,
        {
            resample_row(
                self.resamplings[i],
                component_data[i].as_slice(),
                self.sizes[i],
                self.row_strides[i],
                row,
                output_width,
                line_buffer.as_mut_slice(),
            );
            let mut x: usize = 0;
            while x < output_width
                invariant
                    count == component_count,
                    count == component_data@.len(),
                    width == output_width,
                    width * count <= output_len,
                    output_len == output@.len(),
                    output@.len() == old(output)@.len(),
                    i < component_count,
                    x <= output_width,
                    line_buffer@.len() == output_width + 1,
                    forall|y: int|
                        0 <= y < output_width ==> (#[trigger] line_buffer@[y]) as int == self.sample_of(
                            i as int,
                            component_data@[i as int]@,
                            row as int,
                            y,
                        ),
                    forall|k: int|
                        0 <= k < width * count && (k % count < i || (k % count == i && k / count
                            < x)) ==> (#[trigger] output@[k]) as int == self.sample_of(
                            k % count,
                            component_data@[k % count]@,
                            row as int,
                            k / count,
                        ),
                    forall|k: int|
                        0 <= k < output_len && !(k < width * count && (k % count < i || (k % count
                            == i && k / count < x))) ==> #[trigger] output@[k] == old(output)@[k],
                decreases output_width - x,
            {
                proof {
                    lemma_interleaved_position(x as int, i as int, count, width);
                }
                output[x * component_count + i] = line_buffer[x];
                proof {
                    assert forall|k: int|
                        0 <= k < width * count && #[trigger] (k % count) == i && k / count
                            == x implies k == x * count + i by {
                        lemma_fundamental_div_mod(k, count);
                    }
                }
                x = x + 1;
            }
            proof {
                assert forall|k: int| 0 <= k < width * count implies #[trigger] (k / count)
                    < width by {
                    lemma_interleaved_sample(k, count, width);
                }
            }
            i = i + 1;
        }
        proof {
            assert forall|x: int, j: int| 0 <= x < width && 0 <= j < count implies (
            #[trigger] output@[x * count + j]) as int == self.sample_of(
                j,
                component_data@[j]@,
                row as int,
                x,
            ) by {
                lemma_interleaved_position(x, j, count, width);
            }
        }
    }
    /// The number of components.
    pub fn component_count(&self) -> (n: usize)
        ensures
            n == self.resamplings().len(),
    {
        self.resamplings.len()
    }

    /// The strategy of component `i`.
    pub fn resampling(&self, i: usize) -> (r: Resampling)
        requires
            i < self.resamplings().len(),
        ensures
            r == self.resamplings()[i as int],
    {
        self.resamplings[i]
    }
}

} // verus!
