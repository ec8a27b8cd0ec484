//! Repeating a tensor along one of its dimensions.
//!
//! Every element of the output is a copy of one element of the input: the one
//! with the same coordinates, but for the coordinate along the repeated
//! dimension, which is taken modulo the input's extent.

use vstd::prelude::*;
use vstd::arithmetic::div_mod::lemma_mod_mod;
use crate::arith::{lemma_product_sign, lemma_quotient_range};
use crate::launch::{
    elemwise_cube_count, elemwise_grid, spec_check_grid, CubeDim, LaunchError, LaunchGrid,
};
use crate::shape::{lemma_product_zero, num_elements, product};

verus! {

/// Product of the dimensions from `i` on; the stride of dimension `i - 1` in a
/// contiguous, row-major layout.
pub open spec fn suffix_product(shape: Seq<usize>, i: int) -> nat
    decreases shape.len() - i,
{
    if i < 0 || i >= shape.len() {
        1
    } else {
        (shape[i] as nat) * suffix_product(shape, i + 1)
    }
}

/// The strides are those of a contiguous, row-major layout of the shape.
pub open spec fn contiguous(shape: Seq<usize>, strides: Seq<usize>) -> bool {
    &&& strides.len() == shape.len()
    &&& forall|i: int| 0 <= i < shape.len() ==> #[trigger] strides[i] == suffix_product(shape, i + 1)
}

/// The last `shape.len() - i` dimensions of a prefix of a shape multiply to the
/// product of the whole prefix divided by its first `i` dimensions.
proof fn lemma_suffix_of_prefix(shape: Seq<usize>, i: int)
    requires
        0 <= i <= shape.len(),
    ensures
        product(shape) == product(shape.take(i)) * suffix_product(shape, i),
    decreases shape.len() - i,
{
    if i == shape.len() {
        assert(shape.take(i) =~= shape);
        assert(suffix_product(shape, i) == 1);
        assert(product(shape) * 1 == product(shape)) by (nonlinear_arith);
    } else {
        lemma_suffix_of_prefix(shape, i + 1);
        assert(suffix_product(shape, i) == (shape[i] as nat) * suffix_product(shape, i + 1));
        let longer = shape.take(i + 1);
        assert(longer.drop_last() =~= shape.take(i));
        assert(longer.last() == shape[i]);
        let a = product(shape.take(i)) as int;
        let b = shape[i] as int;
        let c = suffix_product(shape, i + 1) as int;
        assert(product(longer) == a * b);
        assert((a * b) * c == a * (b * c)) by (nonlinear_arith);
    }
}

/// The product of all dimensions, counted from the front or from the back.
pub proof fn lemma_suffix_product_is_product(shape: Seq<usize>)
    ensures
        suffix_product(shape, 0) == product(shape),
{
    lemma_suffix_of_prefix(shape, 0);
    assert(shape.take(0) =~= Seq::<usize>::empty());
    assert(product(shape.take(0)) == 1);
    assert(1 * (suffix_product(shape, 0) as int) == suffix_product(shape, 0)) by (nonlinear_arith);
}

/// Without a zero dimension, the strides of a contiguous layout are positive and
/// do not grow from one dimension to the next.
proof fn lemma_suffix_product_ordered(shape: Seq<usize>, i: int)
    requires
        0 <= i <= shape.len(),
        forall|j: int| 0 <= j < shape.len() ==> shape[j] > 0,
    ensures
        1 <= suffix_product(shape, i) <= suffix_product(shape, 0),
    decreases i,
{
    lemma_suffix_positive(shape, i);
    if i > 0 {
        lemma_suffix_product_ordered(shape, i - 1);
        let a = shape[i - 1] as int;
        let b = suffix_product(shape, i) as int;
        assert(b <= a * b) by (nonlinear_arith)
            requires
                a >= 1,
                b >= 1,
        ;
    }
}

proof fn lemma_suffix_positive(shape: Seq<usize>, i: int)
    requires
        forall|j: int| 0 <= j < shape.len() ==> shape[j] > 0,
    ensures
        suffix_product(shape, i) >= 1,
    decreases shape.len() - i,
{
    if 0 <= i < shape.len() {
        lemma_suffix_positive(shape, i + 1);
        lemma_product_sign(shape[i] as int, suffix_product(shape, i + 1) as int);
    }
}

/// The strides of the contiguous, row-major layout of a shape without a zero
/// dimension whose number of elements fits in `usize`.
pub fn contiguous_strides(shape: &Vec<usize>) -> (strides: Vec<usize>)
    requires
        forall|j: int| 0 <= j < shape@.len() ==> shape@[j] > 0,
        product(shape@) <= usize::MAX,
    ensures
        contiguous(shape@, strides@),
{
    let rank = shape.len();
    let mut strides: Vec<usize> = Vec::new();
    let mut k: usize = 0;
    while k < rank
        invariant
            k <= rank,
            strides@.len() == k,
        decreases rank - k,
    {
        strides.push(1);
        k += 1;
    }
    let mut acc: usize = 1;
    let mut i: usize = rank;
    while i > 0
        invariant
            rank == shape@.len(),
            strides@.len() == rank,
            i <= rank,
            acc == suffix_product(shape@, i as int),
            forall|j: int| 0 <= j < shape@.len() ==> shape@[j] > 0,
            product(shape@) <= usize::MAX,
            forall|j: int| i <= j < rank ==> #[trigger] strides@[j] == suffix_product(shape@, j + 1),
        decreases i,
    {
        i -= 1;
        strides.set(i, acc);
        proof {
            lemma_suffix_product_ordered(shape@, i as int);
            lemma_suffix_product_is_product(shape@);
        }
        acc = shape[i] * acc;
    }
    strides
}

/// The input element that the output element at flat position `pos` is a copy
/// of, as far as the first `n` dimensions decide: each dimension adds its
/// coordinate, taken modulo the extent that the input has there, times the
/// input's stride.
pub open spec fn spec_source_offset(
    pos: int,
    in_shape: Seq<usize>,
    in_strides: Seq<usize>,
    out_shape: Seq<usize>,
    out_strides: Seq<usize>,
    dim: int,
    n: int,
) -> int
    decreases n,
{
    if n <= 0 {
        0
    } else {
        let i = n - 1;
        let extent = if i != dim {
            out_shape[i]
        } else {
            in_shape[i]
        };
        spec_source_offset(pos, in_shape, in_strides, out_shape, out_strides, dim, i) + (pos / (
        out_strides[i] as int)) % (extent as int) * in_strides[i]
    }
}

/// The largest offset that the first `n` dimensions of a layout can add up to.
pub open spec fn spec_span(shape: Seq<usize>, strides: Seq<usize>, n: int) -> int
    decreases n,
{
    if n <= 0 {
        0
    } else {
        spec_span(shape, strides, n - 1) + (shape[n - 1] - 1) * strides[n - 1]
    }
}

/// Input and output have the same rank and the same extents but along `dim`,
/// no extent of the input and no stride of the output is zero.
pub open spec fn layouts_match(
    in_shape: Seq<usize>,
    in_strides: Seq<usize>,
    out_shape: Seq<usize>,
    out_strides: Seq<usize>,
    dim: int,
) -> bool {
    &&& in_strides.len() == in_shape.len()
    &&& out_shape.len() == in_shape.len()
    &&& out_strides.len() == in_shape.len()
    &&& 0 <= dim < in_shape.len()
    &&& forall|i: int| 0 <= i < in_shape.len() ==> #[trigger] in_shape[i] >= 1
    &&& forall|i: int| 0 <= i < in_shape.len() ==> #[trigger] out_strides[i] >= 1
    &&& forall|i: int| 0 <= i < in_shape.len() && i != dim ==> #[trigger] out_shape[i] == in_shape[i]
}

/// The span of a contiguous layout is one less than its number of elements.
proof fn lemma_contiguous_span(shape: Seq<usize>, strides: Seq<usize>, n: int)
    requires
        contiguous(shape, strides),
        0 <= n <= shape.len(),
        forall|j: int| 0 <= j < shape.len() ==> shape[j] > 0,
    ensures
        spec_span(shape, strides, n) == suffix_product(shape, 0) - suffix_product(shape, n),
    decreases n,
{
    if n > 0 {
        lemma_contiguous_span(shape, strides, n - 1);
        let a = shape[n - 1] as int;
        let b = suffix_product(shape, n) as int;
        assert(strides[n - 1] == b);
        assert((a - 1) * b == a * b - b) by (nonlinear_arith);
    }
}

/// The copy kernel for one output element: the offset in the input of the
/// element that the output element at flat position `pos` is a copy of, and
/// `None` for a position past the end of the output.
pub fn repeat_dim_kernel(
    pos: usize,
    out_len: usize,
    in_shape: &Vec<usize>,
    in_strides: &Vec<usize>,
    out_shape: &Vec<usize>,
    out_strides: &Vec<usize>,
    dim: usize,
) -> (offset: Option<usize>)
    requires
        layouts_match(in_shape@, in_strides@, out_shape@, out_strides@, dim as int),
        spec_span(in_shape@, in_strides@, in_shape@.len() as int) <= usize::MAX,
    ensures
        pos >= out_len ==> offset is None,
        pos < out_len ==> offset == Some(
            spec_source_offset(
                pos as int,
                in_shape@,
                in_strides@,
                out_shape@,
                out_strides@,
                dim as int,
                in_shape@.len() as int,
            ) as usize,
        ),
        0 <= spec_source_offset(
            pos as int,
            in_shape@,
            in_strides@,
            out_shape@,
            out_strides@,
            dim as int,
            in_shape@.len() as int,
        ) <= spec_span(in_shape@, in_strides@, in_shape@.len() as int),
{
    let rank = in_shape.len();
    let mut offset: usize = 0;
    let mut i: usize = 0;
    while i < rank
        invariant
            rank == in_shape@.len(),
            i <= rank,
            layouts_match(in_shape@, in_strides@, out_shape@, out_strides@, dim as int),
            spec_span(in_shape@, in_strides@, rank as int) <= usize::MAX,
            offset == spec_source_offset(
                pos as int,
                in_shape@,
                in_strides@,
                out_shape@,
                out_strides@,
                dim as int,
                i as int,
            ),
            0 <= offset <= spec_span(in_shape@, in_strides@, i as int),
        decreases rank - i,
    {
        let shape = if i != dim {
            out_shape[i]
        } else {
            in_shape[i]
        };
        proof {
            assert(in_shape@[i as int] >= 1);
            assert(out_strides@[i as int] >= 1);
            assert(shape == in_shape@[i as int]);
            let p = pos as int;
            let out_stride = out_strides@[i as int] as int;
            lemma_quotient_range(p, out_stride);
            lemma_quotient_range(p / out_stride, shape as int);
            let coordinate = (p / out_stride) % (shape as int);
            let stride = in_strides@[i as int] as int;
            assert(0 <= coordinate * stride <= (shape - 1) * stride) by (nonlinear_arith)
                requires
                    0 <= coordinate <= shape - 1,
                    stride >= 0,
            ;
            lemma_span_grows(in_shape@, in_strides@, i + 1, rank as int);
        }
        let offset_local = pos / out_strides[i] % shape * in_strides[i];
        offset = offset + offset_local;
        i += 1;
    }
    if pos >= out_len {
        None
    } else {
        Some(offset)
    }
}

/// The span of more dimensions is not smaller.
proof fn lemma_span_grows(shape: Seq<usize>, strides: Seq<usize>, n: int, m: int)
    requires
        0 <= n <= m <= shape.len(),
        strides.len() == shape.len(),
        forall|i: int| 0 <= i < shape.len() ==> #[trigger] shape[i] >= 1,
    ensures
        spec_span(shape, strides, n) <= spec_span(shape, strides, m),
    decreases m - n,
{
    if n < m {
        lemma_span_grows(shape, strides, n, m - 1);
        assert(shape[m - 1] >= 1);
        lemma_product_sign(shape[m - 1] - 1, strides[m - 1] as int);
    }
}

/// Repeating: where the output's extent along the repeated dimension is a
/// multiple of the input's, the input coordinate that the kernel reads is the
/// output coordinate modulo the input's extent.
pub proof fn lemma_coordinate_repeats(pos: int, out_stride: int, extent: int, times: int)
    requires
        extent >= 1,
        times >= 1,
    ensures
        (pos / out_stride) % extent == ((pos / out_stride) % (extent * times)) % extent,
{
    lemma_mod_mod(pos / out_stride, extent, times);
}

/// The shape of a tensor repeated `times` times along `dim`.
pub open spec fn spec_repeat_shape(shape: Seq<usize>, dim: int, times: usize) -> Seq<usize> {
    shape.update(dim, (shape[dim] * times) as usize)
}

/// The repetition can be made: the dimension exists, `elements` is the number
/// of elements of the shape, and the number of elements of the result fits in
/// `usize`, as does its extent along `dim`.
pub open spec fn repeat_dim_defined(
    elements: nat,
    shape: Seq<usize>,
    dim: usize,
    times: usize,
) -> bool {
    &&& dim < shape.len()
    &&& elements == product(shape)
    &&& shape[dim as int] * times <= usize::MAX
    &&& product(spec_repeat_shape(shape, dim as int, times)) <= usize::MAX
}

/// The element of a contiguous input that the element of the repeated tensor
/// at flat position `pos` is a copy of.
pub open spec fn spec_repeat_source(pos: int, shape: Seq<usize>, dim: int, times: usize) -> int {
    let out_shape = spec_repeat_shape(shape, dim, times);
    spec_source_offset(
        pos,
        shape,
        Seq::new(shape.len(), |i: int| suffix_product(shape, i + 1) as usize),
        out_shape,
        Seq::new(shape.len(), |i: int| suffix_product(out_shape, i + 1) as usize),
        dim,
        shape.len() as int,
    )
}

/// Repeats a contiguous tensor `times` times along dimension `dim`: the shape
/// of the result and its elements, each a copy of the input element that the
/// kernel names for it.
pub fn repeat_dim<T: Copy>(input: &Vec<T>, shape: &Vec<usize>, dim: usize, times: usize) -> (r:
    Option<(Vec<usize>, Vec<T>)>)
    ensures
        r is Some <==> repeat_dim_defined(input@.len(), shape@, dim, times),
        r matches Some((out_shape, output)) ==> {
            &&& out_shape@ == spec_repeat_shape(shape@, dim as int, times)
            &&& output@.len() == product(out_shape@)
            &&& forall|pos: int|
                0 <= pos < output@.len() ==> 0 <= #[trigger] spec_repeat_source(
                    pos,
                    shape@,
                    dim as int,
                    times,
                ) < input@.len() && output@[pos] == input@[spec_repeat_source(
                    pos,
                    shape@,
                    dim as int,
                    times,
                )]
        },
{
    if dim >= shape.len() {
        return None;
    }
    let in_len = input.len();
    match num_elements(shape.as_slice()) {
        Some(n) => {
            if n != in_len {
                return None;
            }
        },
        None => {
            return None;
        },
    }
    let extent = match shape[dim].checked_mul(times) {
        Some(v) => v,
        None => {
            return None;
        },
    };
    let mut out_shape = shape.clone();
    out_shape.set(dim, extent);
    assert(out_shape@ =~= spec_repeat_shape(shape@, dim as int, times));
    let out_len = match num_elements(out_shape.as_slice()) {
        Some(n) => n,
        None => {
            return None;
        },
    };
    let mut output: Vec<T> = Vec::new();
    if out_len == 0 {
        return Some((out_shape, output));
    }
    proof {
        // a tensor with elements has no zero dimension
        assert forall|j: int| 0 <= j < out_shape@.len() implies out_shape@[j] > 0 by {
            if out_shape@[j] == 0 {
                lemma_product_zero(out_shape@, j);
            }
        }
        assert forall|j: int| 0 <= j < shape@.len() implies shape@[j] > 0 by {
            if j != dim {
                assert(out_shape@[j] == shape@[j]);
            } else {
                assert(out_shape@[j] == shape@[j] * times);
                if shape@[j] == 0 {
                    lemma_product_sign(shape@[j] as int, times as int);
                }
            }
        }
    }
    let in_strides = contiguous_strides(shape);
    let out_strides = contiguous_strides(&out_shape);
    proof {
        lemma_contiguous_span(shape@, in_strides@, shape@.len() as int);
        lemma_suffix_product_is_product(shape@);
        assert(suffix_product(shape@, shape@.len() as int) == 1);
        assert(in_strides@ =~= Seq::new(
            shape@.len(),
            |i: int| suffix_product(shape@, i + 1) as usize,
        ));
        assert(out_strides@ =~= Seq::new(
            shape@.len(),
            |i: int| suffix_product(out_shape@, i + 1) as usize,
        ));
        assert forall|i: int| 0 <= i < shape@.len() implies #[trigger] out_strides@[i] >= 1 by {
            lemma_suffix_positive(out_shape@, i + 1);
        }
    }
    let mut pos: usize = 0;
    while pos < out_len
        invariant
            pos <= out_len,
            output@.len() == pos,
            out_len == product(out_shape@),
            input@.len() == product(shape@),
            input@.len() <= usize::MAX,
            out_shape@ == spec_repeat_shape(shape@, dim as int, times),
            layouts_match(shape@, in_strides@, out_shape@, out_strides@, dim as int),
            spec_span(shape@, in_strides@, shape@.len() as int) == input@.len() - 1,
            in_strides@ == Seq::new(shape@.len(), |i: int| suffix_product(shape@, i + 1) as usize),
            out_strides@ == Seq::new(
                shape@.len(),
                |i: int| suffix_product(out_shape@, i + 1) as usize,
            ),
            forall|p: int|
                0 <= p < pos ==> 0 <= #[trigger] spec_repeat_source(p, shape@, dim as int, times)
                    < input@.len() && output@[p] == input@[spec_repeat_source(
                    p,
                    shape@,
                    dim as int,
                    times,
                )],
        decreases out_len - pos,
    {
        match repeat_dim_kernel(pos, out_len, shape, &in_strides, &out_shape, &out_strides, dim) {
            Some(offset) => {
                output.push(input[offset]);
            },
            None => {
                assert(false);
            },
        }
        pos += 1;
    }
    Some((out_shape, output))
}

/// What is handed to the device to repeat a tensor.
#[derive(Debug, PartialEq, Eq)]
pub struct RepeatDimLaunch {
    /// Shape of the output.
    pub shape: Vec<usize>,
    /// Number of output elements, one unit of work each.
    pub num_elems: usize,
    /// The repeated dimension, as the kernel receives it.
    pub dim: u32,
    pub grid: LaunchGrid,
}

/// Why a repetition cannot be planned.
#[derive(Clone, Copy, Debug, PartialEq, Eq, Structural, Hash)]
pub enum RepeatDimError {
    /// The tensor does not have the dimension, or its index does not fit the
    /// kernel's argument.
    NoSuchDimension,
    /// The output would hold more elements than can be addressed.
    SizeOutOfRange,
    /// No launch grid could be planned.
    Launch(LaunchError),
}

/// Plans the launch of the copy kernel for a tensor of the given shape,
/// repeated `times` times along `dim`: the shape of the output and a grid with
/// one unit for each of its elements.
pub fn repeat_dim_launch(shape: &Vec<usize>, dim: usize, times: usize) -> (r: Result<
    RepeatDimLaunch,
    RepeatDimError,
>)
    ensures
        match r {
            Ok(launch) => {
                &&& dim < shape@.len()
                &&& dim == launch.dim
                &&& launch.shape@ == spec_repeat_shape(shape@, dim as int, times)
                &&& launch.num_elems == product(launch.shape@)
                &&& launch.grid.covers(launch.num_elems)
                &&& Ok::<LaunchGrid, LaunchError>(launch.grid) == spec_check_grid(
                    launch.num_elems,
                    CubeDim { x: 16, y: 16, z: 1 },
                    elemwise_cube_count(launch.num_elems, 16, 16, 1),
                )
            },
            Err(RepeatDimError::NoSuchDimension) => dim >= shape@.len() || dim > u32::MAX,
            Err(RepeatDimError::SizeOutOfRange) => dim < shape@.len() && dim <= u32::MAX && (
            shape@[dim as int] * times > usize::MAX || product(
                spec_repeat_shape(shape@, dim as int, times),
            ) > usize::MAX),
            Err(RepeatDimError::Launch(e)) => dim < shape@.len() && dim <= u32::MAX && shape@[dim as int]
                * times <= usize::MAX && product(spec_repeat_shape(shape@, dim as int, times))
                <= usize::MAX && Err::<LaunchGrid, LaunchError>(e) == spec_check_grid(
                product(spec_repeat_shape(shape@, dim as int, times)) as usize,
                CubeDim { x: 16, y: 16, z: 1 },
                elemwise_cube_count(
                    product(spec_repeat_shape(shape@, dim as int, times)) as usize,
                    16,
                    16,
                    1,
                ),
            ),
        },
{
    if dim >= shape.len() || dim > u32::MAX as usize {
        return Err(RepeatDimError::NoSuchDimension);
    }
    let extent = match shape[dim].checked_mul(times) {
        Some(v) => v,
        None => {
            return Err(RepeatDimError::SizeOutOfRange);
        },
    };
    let mut out_shape = shape.clone();
    out_shape.set(dim, extent);
    assert(out_shape@ =~= spec_repeat_shape(shape@, dim as int, times));
    let num_elems = match num_elements(out_shape.as_slice()) {
        Some(n) => n,
        None => {
            return Err(RepeatDimError::SizeOutOfRange);
        },
    };
    match elemwise_grid(num_elems) {
        Ok(grid) => Ok(RepeatDimLaunch { shape: out_shape, num_elems, dim: dim as u32, grid }),
        Err(e) => Err(RepeatDimError::Launch(e)),
    }
}

} // verus!
