//! Element counts of shapes and the output size of a transposed convolution.

use vstd::prelude::*;
use vstd::arithmetic::mul::*;

verus! {

/// Product of the dimensions of a shape; 1 for the empty shape.
pub open spec fn product(dims: Seq<usize>) -> nat
    decreases dims.len(),
{
    if dims.len() == 0 {
        1
    } else {
        product(dims.drop_last()) * (dims.last() as nat)
    }
}

/// A shape with a zero dimension holds no element.
pub proof fn lemma_product_zero(dims: Seq<usize>, i: int)
    requires
        0 <= i < dims.len(),
        dims[i] == 0,
    ensures
        product(dims) == 0,
    decreases dims.len(),
{
    if i == dims.len() - 1 {
        lemma_mul_by_zero_is_zero(product(dims.drop_last()) as int);
    } else {
        lemma_product_zero(dims.drop_last(), i);
        lemma_mul_by_zero_is_zero(dims.last() as int);
    }
}

/// With no zero dimension the product is positive and every prefix has at most as
/// many elements as the whole shape.
pub proof fn lemma_product_prefix(dims: Seq<usize>, n: int)
    requires
        0 <= n <= dims.len(),
        forall|j: int| 0 <= j < dims.len() ==> dims[j] > 0,
    ensures
        1 <= product(dims.take(n)) <= product(dims),
    decreases dims.len() - n,
{
    if n == dims.len() {
        assert(dims.take(n) =~= dims);
        lemma_product_positive(dims);
    } else {
        lemma_product_prefix(dims, n + 1);
        let longer = dims.take(n + 1);
        assert(longer.drop_last() =~= dims.take(n));
        assert(longer.last() == dims[n]);
        lemma_product_positive(dims.take(n));
        lemma_mul_inequality(1, dims[n] as int, product(dims.take(n)) as int);
        lemma_mul_is_commutative(dims[n] as int, product(dims.take(n)) as int);
    }
}

proof fn lemma_product_positive(dims: Seq<usize>)
    requires
        forall|j: int| 0 <= j < dims.len() ==> dims[j] > 0,
    ensures
        product(dims) >= 1,
    decreases dims.len(),
{
    if dims.len() > 0 {
        lemma_product_positive(dims.drop_last());
        lemma_mul_strictly_positive(product(dims.drop_last()) as int, dims.last() as int);
    }
}

/// The number of elements of a shape, or `None` where it does not fit in `usize`.
pub fn num_elements(dims: &[usize]) -> (n: Option<usize>)
    ensures
        product(dims@) <= usize::MAX ==> n == Some(product(dims@) as usize),
        product(dims@) > usize::MAX ==> n is None,
{
    let len = dims.len();
    let mut i: usize = 0;
    while i < len
        invariant
            len == dims@.len(),
            i <= len,
            forall|j: int| 0 <= j < i ==> dims@[j] > 0,
        decreases len - i,
    {
        if dims[i] == 0 {
            proof {
                lemma_product_zero(dims@, i as int);
            }
            return Some(0);
        }
        i += 1;
    }
    let mut acc: usize = 1;
    let mut k: usize = 0;
    while k < len
        invariant
            len == dims@.len(),
            k <= len,
            forall|j: int| 0 <= j < len ==> dims@[j] > 0,
            acc == product(dims@.take(k as int)),
        decreases len - k,
    {
        proof {
            let longer = dims@.take(k + 1);
            assert(longer.drop_last() =~= dims@.take(k as int));
            assert(longer.last() == dims@[k as int]);
            lemma_product_prefix(dims@, k + 1);
        }
        match acc.checked_mul(dims[k]) {
            Some(next) => {
                acc = next;
            },
            None => {
                return None;
            },
        }
        k += 1;
    }
    proof {
        assert(dims@.take(len as int) =~= dims@);
    }
    Some(acc)
}

/// Output length along one axis of a transposed convolution:
/// `(size_in - 1) * stride + dilation * (kernel_size - 1) + 1 + padding_out - 2 * padding`.
pub open spec fn spec_conv_transpose_output_size(
    kernel_size: int,
    stride: int,
    padding: int,
    padding_out: int,
    dilation: int,
    size_in: int,
) -> int {
    (size_in - 1) * stride + dilation * (kernel_size - 1) + 1 + padding_out - 2 * padding
}

/// The part of the output length that is added before the padding is taken off.
pub open spec fn spec_unpadded_extent(
    kernel_size: int,
    stride: int,
    padding_out: int,
    dilation: int,
    size_in: int,
) -> int {
    (size_in - 1) * stride + dilation * (kernel_size - 1) + 1 + padding_out
}

/// The inputs for which the output length can be computed in `usize`: kernel and
/// input are not empty, the length before padding is taken off fits, and the
/// padding does not exceed it.
pub open spec fn transpose_output_size_defined(
    kernel_size: usize,
    stride: usize,
    padding: usize,
    padding_out: usize,
    dilation: usize,
    size_in: usize,
) -> bool {
    &&& kernel_size >= 1
    &&& size_in >= 1
    &&& spec_unpadded_extent(
        kernel_size as int,
        stride as int,
        padding_out as int,
        dilation as int,
        size_in as int,
    ) <= usize::MAX
    &&& 2 * padding <= spec_unpadded_extent(
        kernel_size as int,
        stride as int,
        padding_out as int,
        dilation as int,
        size_in as int,
    )
}

/// Calls `burn_tensor::ops::conv::calculate_conv_transpose_output_size`, which
/// evaluates `(size_in - 1) * stride + (dilation * (kernel_size - 1) + 1) +
/// padding_out - 2 * padding` from left to right in `usize`.  The contract leaves
/// out the inputs on which a step of that evaluation would leave the range of
/// `usize` and claims the value of the formula on the others.
#[verifier::external_body]
fn transpose_output_size(
    kernel_size: usize,
    stride: usize,
    padding: usize,
    padding_out: usize,
    dilation: usize,
    size_in: usize,
) -> (size_out: usize)
    requires
        transpose_output_size_defined(kernel_size, stride, padding, padding_out, dilation, size_in),
    ensures
        size_out == spec_conv_transpose_output_size(
            kernel_size as int,
            stride as int,
            padding as int,
            padding_out as int,
            dilation as int,
            size_in as int,
        ),
{
    burn_tensor::ops::conv::calculate_conv_transpose_output_size(
        kernel_size,
        stride,
        padding,
        padding_out,
        dilation,
        size_in,
    )
}

/// Output length along one axis of a transposed convolution, or `None` where it
/// is not defined (see [`transpose_output_size_defined`]).
pub fn conv_transpose_output_size(
    kernel_size: usize,
    stride: usize,
    padding: usize,
    padding_out: usize,
    dilation: usize,
    size_in: usize,
) -> (size_out: Option<usize>)
    ensures
        transpose_output_size_defined(kernel_size, stride, padding, padding_out, dilation, size_in)
            ==> size_out == Some(
            spec_conv_transpose_output_size(
                kernel_size as int,
                stride as int,
                padding as int,
                padding_out as int,
                dilation as int,
                size_in as int,
            ) as usize,
        ),
        !transpose_output_size_defined(
            kernel_size,
            stride,
            padding,
            padding_out,
            dilation,
            size_in,
        ) ==> size_out is None,
{
    if kernel_size == 0 || size_in == 0 {
        return None;
    }
    let steps = match (size_in - 1).checked_mul(stride) {
        Some(v) => v,
        None => {
            proof {
                lemma_mul_nonnegative(dilation as int, kernel_size - 1);
            }
            return None;
        },
    };
    let taps = match dilation.checked_mul(kernel_size - 1) {
        Some(v) => v,
        None => {
            return None;
        },
    };
    let sum = match steps.checked_add(taps) {
        Some(v) => v,
        None => {
            return None;
        },
    };
    let sum = match sum.checked_add(1) {
        Some(v) => v,
        None => {
            return None;
        },
    };
    let extent = match sum.checked_add(padding_out) {
        Some(v) => v,
        None => {
            return None;
        },
    };
    if padding > extent / 2 {
        return None;
    }
    Some(transpose_output_size(kernel_size, stride, padding, padding_out, dilation, size_in))
}

/// Output length along one axis of a convolution:
/// `(size_in + 2 * padding - dilation * (kernel_size - 1) - 1) / stride + 1`.
pub open spec fn spec_conv_output_size(
    kernel_size: int,
    stride: int,
    padding: int,
    dilation: int,
    size_in: int,
) -> int {
    (size_in + 2 * padding - dilation * (kernel_size - 1) - 1) / stride + 1
}

/// The inputs for which the output length of a convolution can be computed in
/// `usize`: kernel and stride are at least one, the padded input fits, and the
/// dilated kernel is not longer than the padded input.
pub open spec fn conv_output_size_defined(
    kernel_size: usize,
    stride: usize,
    padding: usize,
    dilation: usize,
    size_in: usize,
) -> bool {
    &&& kernel_size >= 1
    &&& stride >= 1
    &&& size_in + 2 * padding <= usize::MAX
    &&& dilation * (kernel_size - 1) + 1 <= size_in + 2 * padding
}

/// Calls `burn_tensor::ops::conv::calculate_conv_output_size`, which evaluates
/// `(size_in + 2 * padding - dilation * (kernel_size - 1) - 1) / stride + 1` in
/// `usize`.  The contract leaves out the inputs on which a step of that
/// evaluation would leave the range of `usize` or divide by zero, and claims the
/// value of the formula on the others.
#[verifier::external_body]
fn output_size(
    kernel_size: usize,
    stride: usize,
    padding: usize,
    dilation: usize,
    size_in: usize,
) -> (size_out: usize)
    requires
        conv_output_size_defined(kernel_size, stride, padding, dilation, size_in),
    ensures
        size_out == spec_conv_output_size(
            kernel_size as int,
            stride as int,
            padding as int,
            dilation as int,
            size_in as int,
        ),
{
    burn_tensor::ops::conv::calculate_conv_output_size(
        kernel_size,
        stride,
        padding,
        dilation,
        size_in,
    )
}

/// Output length along one axis of a convolution, or `None` where it is not
/// defined (see [`conv_output_size_defined`]).
pub fn conv_output_size(
    kernel_size: usize,
    stride: usize,
    padding: usize,
    dilation: usize,
    size_in: usize,
) -> (size_out: Option<usize>)
    ensures
        conv_output_size_defined(kernel_size, stride, padding, dilation, size_in) ==> size_out
            == Some(
            spec_conv_output_size(
                kernel_size as int,
                stride as int,
                padding as int,
                dilation as int,
                size_in as int,
            ) as usize,
        ),
        !conv_output_size_defined(kernel_size, stride, padding, dilation, size_in)
            ==> size_out is None,
{
    if kernel_size == 0 || stride == 0 {
        return None;
    }
    let padded = match padding.checked_mul(2) {
        Some(twice) => match size_in.checked_add(twice) {
            Some(v) => v,
            None => {
                return None;
            },
        },
        None => {
            return None;
        },
    };
    let reach = match dilation.checked_mul(kernel_size - 1) {
        Some(v) => v,
        None => {
            return None;
        },
    };
    if reach >= padded {
        return None;
    }
    Some(output_size(kernel_size, stride, padding, dilation, size_in))
}

} // verus!
