//! The entry points: check a call, find the shape of its output, and resolve
//! the strategy that the caller asked for to a kernel to run or a benchmark to
//! make.

use vstd::prelude::*;
use crate::options::{ConvError, ConvOptions, ConvTransposeOptions};
use crate::shape::{
    conv_output_size, conv_output_size_defined, conv_transpose_output_size,
    spec_conv_output_size, spec_conv_transpose_output_size, transpose_output_size_defined,
};
use crate::strategy::{Conv2dStrategy, ConvTranspose2dStrategy};
use crate::tune::conv2d::{conv2d_autotune, Tuning};
use crate::tune::transpose2d::conv_transpose2d_autotune;
use crate::tune::{Autotuner, ConvKernel};

verus! {

/// A call that has been checked: the shape of its output and what to do.
#[derive(Clone, Copy, Debug, PartialEq, Eq, Hash)]
pub struct Dispatch {
    pub output_shape: [usize; 4],
    pub tuning: Tuning,
}

/// The output shape of a convolution of an input of shape (batch, channels,
/// height, width) with a weight of shape (output channels, channels per group,
/// kernel height, kernel width), or the reason why the call is invalid.
pub open spec fn spec_conv2d_shape(
    input: [usize; 4],
    weight: [usize; 4],
    bias: Option<usize>,
    options: ConvOptions,
) -> Result<[usize; 4], ConvError> {
    if !options.valid() {
        Err(ConvError::InvalidOptions)
    } else if weight[2] == 0 || weight[3] == 0 {
        Err(ConvError::EmptyKernel)
    } else if input[1] % options.groups != 0 || weight[0] % options.groups != 0 {
        Err(ConvError::ChannelsNotDivisible)
    } else if weight[1] != input[1] / options.groups {
        Err(ConvError::ChannelMismatch)
    } else if bias is Some && bias->0 != weight[0] {
        Err(ConvError::BiasMismatch)
    } else if !conv_output_size_defined(
        weight[2],
        options.stride[0],
        options.padding[0],
        options.dilation[0],
        input[2],
    ) || !conv_output_size_defined(
        weight[3],
        options.stride[1],
        options.padding[1],
        options.dilation[1],
        input[3],
    ) {
        Err(ConvError::SizeOutOfRange)
    } else {
        Ok(
            [
                input[0],
                weight[0],
                spec_conv_output_size(
                    weight[2] as int,
                    options.stride[0] as int,
                    options.padding[0] as int,
                    options.dilation[0] as int,
                    input[2] as int,
                ) as usize,
                spec_conv_output_size(
                    weight[3] as int,
                    options.stride[1] as int,
                    options.padding[1] as int,
                    options.dilation[1] as int,
                    input[3] as int,
                ) as usize,
            ],
        )
    }
}

/// Checks a convolution and gives the shape of its output.
pub fn conv2d_shape(
    input: [usize; 4],
    weight: [usize; 4],
    bias: Option<usize>,
    options: &ConvOptions,
) -> (shape: Result<[usize; 4], ConvError>)
    ensures
        shape == spec_conv2d_shape(input, weight, bias, *options),
{
    if !options.is_valid() {
        return Err(ConvError::InvalidOptions);
    }
    if weight[2] == 0 || weight[3] == 0 {
        return Err(ConvError::EmptyKernel);
    }
    if input[1] % options.groups != 0 || weight[0] % options.groups != 0 {
        return Err(ConvError::ChannelsNotDivisible);
    }
    if weight[1] != input[1] / options.groups {
        return Err(ConvError::ChannelMismatch);
    }
    match bias {
        Some(n) => {
            if n != weight[0] {
                return Err(ConvError::BiasMismatch);
            }
        },
        None => {},
    }
    let out_h = conv_output_size(
        weight[2],
        options.stride[0],
        options.padding[0],
        options.dilation[0],
        input[2],
    );
    let out_w = conv_output_size(
        weight[3],
        options.stride[1],
        options.padding[1],
        options.dilation[1],
        input[3],
    );
    match (out_h, out_w) {
        (Some(h), Some(w)) => {
            let shape: [usize; 4] = [input[0], weight[0], h, w];
            proof {
                assert(shape =~= spec_conv2d_shape(input, weight, bias, *options)->Ok_0);
            }
            Ok(shape)
        },
        _ => Err(ConvError::SizeOutOfRange),
    }
}

/// The output shape of a transposed convolution of an input of shape (batch,
/// channels, height, width) with a weight of shape (input channels, output
/// channels per group, kernel height, kernel width), or the reason why the call
/// is invalid.
pub open spec fn spec_conv_transpose2d_shape(
    input: [usize; 4],
    weight: [usize; 4],
    bias: Option<usize>,
    options: ConvTransposeOptions,
) -> Result<[usize; 4], ConvError> {
    if !options.valid() {
        Err(ConvError::InvalidOptions)
    } else if weight[2] == 0 || weight[3] == 0 {
        Err(ConvError::EmptyKernel)
    } else if input[1] != weight[0] {
        Err(ConvError::ChannelMismatch)
    } else if weight[0] % options.groups != 0 {
        Err(ConvError::ChannelsNotDivisible)
    } else if bias is Some && bias->0 != weight[1] * options.groups {
        Err(ConvError::BiasMismatch)
    } else if weight[1] * options.groups > usize::MAX || !transpose_output_size_defined(
        weight[2],
        options.stride[0],
        options.padding[0],
        options.padding_out[0],
        options.dilation[0],
        input[2],
    ) || !transpose_output_size_defined(
        weight[3],
        options.stride[1],
        options.padding[1],
        options.padding_out[1],
        options.dilation[1],
        input[3],
    ) {
        Err(ConvError::SizeOutOfRange)
    } else {
        Ok(
            [
                input[0],
                (weight[1] * options.groups) as usize,
                spec_conv_transpose_output_size(
                    weight[2] as int,
                    options.stride[0] as int,
                    options.padding[0] as int,
                    options.padding_out[0] as int,
                    options.dilation[0] as int,
                    input[2] as int,
                ) as usize,
                spec_conv_transpose_output_size(
                    weight[3] as int,
                    options.stride[1] as int,
                    options.padding[1] as int,
                    options.padding_out[1] as int,
                    options.dilation[1] as int,
                    input[3] as int,
                ) as usize,
            ],
        )
    }
}

/// Checks a transposed convolution and gives the shape of its output.
pub fn conv_transpose2d_shape(
    input: [usize; 4],
    weight: [usize; 4],
    bias: Option<usize>,
    options: &ConvTransposeOptions,
) -> (shape: Result<[usize; 4], ConvError>)
    ensures
        shape == spec_conv_transpose2d_shape(input, weight, bias, *options),
{
    if !options.is_valid() {
        return Err(ConvError::InvalidOptions);
    }
    if weight[2] == 0 || weight[3] == 0 {
        return Err(ConvError::EmptyKernel);
    }
    if input[1] != weight[0] {
        return Err(ConvError::ChannelMismatch);
    }
    if weight[0] % options.groups != 0 {
        return Err(ConvError::ChannelsNotDivisible);
    }
    let channels = weight[1].checked_mul(options.groups);
    match bias {
        Some(n) => {
            if channels != Some(n) {
                return Err(ConvError::BiasMismatch);
            }
        },
        None => {},
    }
    let out_h = conv_transpose_output_size(
        weight[2],
        options.stride[0],
        options.padding[0],
        options.padding_out[0],
        options.dilation[0],
        input[2],
    );
    let out_w = conv_transpose_output_size(
        weight[3],
        options.stride[1],
        options.padding[1],
        options.padding_out[1],
        options.dilation[1],
        input[3],
    );
    match (channels, out_h, out_w) {
        (Some(c), Some(h), Some(w)) => {
            let shape: [usize; 4] = [input[0], c, h, w];
            proof {
                assert(shape =~= spec_conv_transpose2d_shape(input, weight, bias, *options)->Ok_0);
            }
            Ok(shape)
        },
        _ => Err(ConvError::SizeOutOfRange),
    }
}

/// Plans a convolution with the given strategy.  An invalid call is refused
/// before anything else is done.  The direct and the GEMM strategy name their
/// kernel; autotuning looks the call up in the autotuner.
pub fn conv2d(
    tuner: &Autotuner,
    device: u64,
    input: [usize; 4],
    weight: [usize; 4],
    bias: Option<usize>,
    options: &ConvOptions,
    strategy: Conv2dStrategy,
) -> (r: Result<Dispatch, ConvError>)
    ensures
        spec_conv2d_shape(input, weight, bias, *options) matches Err(e) ==> r == Err::<
            Dispatch,
            ConvError,
        >(e),
        spec_conv2d_shape(input, weight, bias, *options) matches Ok(shape) ==> match strategy {
            Conv2dStrategy::Direct => r == Ok::<Dispatch, ConvError>(
                Dispatch { output_shape: shape, tuning: Tuning::Run { kernel: ConvKernel::Direct } },
            ),
            Conv2dStrategy::Gemm => r == Ok::<Dispatch, ConvError>(
                Dispatch { output_shape: shape, tuning: Tuning::Run { kernel: ConvKernel::Gemm } },
            ),
            Conv2dStrategy::Autotune => match r {
                Ok(d) => d.output_shape == shape && crate::tune::conv2d::is_autotune_result(
                    tuner@,
                    device,
                    input,
                    weight,
                    bias is Some,
                    *options,
                    Ok(d.tuning),
                ),
                Err(e) => crate::tune::conv2d::is_autotune_result(
                    tuner@,
                    device,
                    input,
                    weight,
                    bias is Some,
                    *options,
                    Err(e),
                ),
            },
        },
{
    let output_shape = match conv2d_shape(input, weight, bias, options) {
        Ok(shape) => shape,
        Err(e) => {
            return Err(e);
        },
    };
    match strategy {
        Conv2dStrategy::Direct => Ok(
            Dispatch { output_shape, tuning: Tuning::Run { kernel: ConvKernel::Direct } },
        ),
        Conv2dStrategy::Gemm => Ok(
            Dispatch { output_shape, tuning: Tuning::Run { kernel: ConvKernel::Gemm } },
        ),
        Conv2dStrategy::Autotune => {
            match conv2d_autotune(tuner, device, input, weight, bias.is_some(), options) {
                Ok(tuning) => Ok(Dispatch { output_shape, tuning }),
                Err(e) => Err(e),
            }
        },
    }
}

/// Plans a transposed convolution with the given strategy.  An invalid call is
/// refused before anything else is done.  The direct and the GEMM strategy name
/// their kernel; autotuning looks the call up in the autotuner.
pub fn conv_transpose2d(
    tuner: &Autotuner,
    device: u64,
    input: [usize; 4],
    weight: [usize; 4],
    bias: Option<usize>,
    options: &ConvTransposeOptions,
    strategy: ConvTranspose2dStrategy,
) -> (r: Result<Dispatch, ConvError>)
    ensures
        spec_conv_transpose2d_shape(input, weight, bias, *options) matches Err(e) ==> r == Err::<
            Dispatch,
            ConvError,
        >(e),
        spec_conv_transpose2d_shape(input, weight, bias, *options) matches Ok(shape)
            ==> match strategy {
            ConvTranspose2dStrategy::Direct => r == Ok::<Dispatch, ConvError>(
                Dispatch { output_shape: shape, tuning: Tuning::Run { kernel: ConvKernel::Direct } },
            ),
            ConvTranspose2dStrategy::Gemm => r == Ok::<Dispatch, ConvError>(
                Dispatch { output_shape: shape, tuning: Tuning::Run { kernel: ConvKernel::Gemm } },
            ),
            ConvTranspose2dStrategy::Autotune => match r {
                Ok(d) => d.output_shape == shape
                    && crate::tune::transpose2d::is_autotune_result(
                    tuner@,
                    device,
                    input,
                    weight,
                    bias is Some,
                    *options,
                    Ok(d.tuning),
                ),
                Err(e) => crate::tune::transpose2d::is_autotune_result(
                    tuner@,
                    device,
                    input,
                    weight,
                    bias is Some,
                    *options,
                    Err(e),
                ),
            },
        },
{
    let output_shape = match conv_transpose2d_shape(input, weight, bias, options) {
        Ok(shape) => shape,
        Err(e) => {
            return Err(e);
        },
    };
    match strategy {
        ConvTranspose2dStrategy::Direct => Ok(
            Dispatch { output_shape, tuning: Tuning::Run { kernel: ConvKernel::Direct } },
        ),
        ConvTranspose2dStrategy::Gemm => Ok(
            Dispatch { output_shape, tuning: Tuning::Run { kernel: ConvKernel::Gemm } },
        ),
        ConvTranspose2dStrategy::Autotune => {
            match conv_transpose2d_autotune(tuner, device, input, weight, bias.is_some(), options) {
                Ok(tuning) => Ok(Dispatch { output_shape, tuning }),
                Err(e) => Err(e),
            }
        },
    }
}

} // verus!
