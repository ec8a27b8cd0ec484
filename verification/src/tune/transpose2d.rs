//! Autotuning of the transposed convolution.

use vstd::prelude::*;
use crate::options::{ConvError, ConvTransposeOptions};
use crate::tune::conv2d::{spec_candidate, Inputs, Tuning, CANDIDATES};
use crate::tune::{
    anchor_dim, is_anchor_of, spec_decide, AutotuneKey, Autotuner, ConvKernel, TuneDecision,
    ANCHOR_LIMIT,
};

verus! {

/// Key of one class of transposed convolution problems.  The kernel size and the options
/// are kept as they are; the channel counts, the spatial sizes and the batch
/// size are anchored, so that nearby sizes share a key.
#[derive(Clone, Copy, Debug, PartialEq, Eq, Hash)]
pub struct ConvTranspose2dAutotuneKey {
    pub kernel_size: [usize; 2],
    pub stride: [usize; 2],
    pub padding: [usize; 2],
    pub padding_out: [usize; 2],
    pub dilation: [usize; 2],
    pub groups: usize,
    pub in_channels: usize,
    pub out_channels: usize,
    pub height: usize,
    pub width: usize,
    pub batch_size: usize,
    pub has_bias: bool,
}

impl ConvTranspose2dAutotuneKey {
    /// The five sizes can be anchored.
    pub open spec fn anchorable(
        in_channels: usize,
        out_channels: usize,
        height: usize,
        width: usize,
        batch_size: usize,
    ) -> bool {
        &&& in_channels <= ANCHOR_LIMIT
        &&& out_channels <= ANCHOR_LIMIT
        &&& height <= ANCHOR_LIMIT
        &&& width <= ANCHOR_LIMIT
        &&& batch_size <= ANCHOR_LIMIT
    }

    /// Makes a key: the kernel size and the options are copied, each of the five
    /// sizes is anchored into the field of its name.  A size above
    /// [`ANCHOR_LIMIT`] is refused.
    pub fn new(
        kernel_size: [usize; 2],
        stride: [usize; 2],
        padding: [usize; 2],
        padding_out: [usize; 2],
        dilation: [usize; 2],
        groups: usize,
        in_channels: usize,
        out_channels: usize,
        height: usize,
        width: usize,
        batch_size: usize,
        has_bias: bool,
    ) -> (r: Result<Self, ConvError>)
        ensures
            match r {
                Ok(key) => {
                    &&& Self::anchorable(in_channels, out_channels, height, width, batch_size)
                    &&& key.kernel_size == kernel_size
                    &&& key.stride == stride
                    &&& key.padding == padding
                    &&& key.padding_out == padding_out
                    &&& key.dilation == dilation
                    &&& key.groups == groups
                    &&& key.has_bias == has_bias
                    &&& is_anchor_of(in_channels, key.in_channels)
                    &&& is_anchor_of(out_channels, key.out_channels)
                    &&& is_anchor_of(height, key.height)
                    &&& is_anchor_of(width, key.width)
                    &&& is_anchor_of(batch_size, key.batch_size)
                },
                Err(e) => e == ConvError::DimensionTooLarge && !Self::anchorable(
                    in_channels,
                    out_channels,
                    height,
                    width,
                    batch_size,
                ),
            },
    {
        match (
            anchor_dim(in_channels),
            anchor_dim(out_channels),
            anchor_dim(height),
            anchor_dim(width),
            anchor_dim(batch_size),
        ) {
            (Some(in_channels), Some(out_channels), Some(height), Some(width), Some(batch_size)) => Ok(
                ConvTranspose2dAutotuneKey {
                    kernel_size,
                    stride,
                    padding,
                    padding_out,
                    dilation,
                    groups,
                    in_channels,
                    out_channels,
                    height,
                    width,
                    batch_size,
                    has_bias,
                },
            ),
            _ => Err(ConvError::DimensionTooLarge),
        }
    }

    /// Tells whether two keys are equal: all their fields are.
    pub fn same(&self, other: &Self) -> (b: bool)
        ensures
            b == (*self == *other),
    {
        let b = self.kernel_size[0] == other.kernel_size[0] && self.kernel_size[1]
            == other.kernel_size[1] && self.stride[0] == other.stride[0] && self.stride[1]
            == other.stride[1] && self.padding[0] == other.padding[0] && self.padding[1]
            == other.padding[1] && self.padding_out[0] == other.padding_out[0] && self.padding_out[1]
            == other.padding_out[1] && self.dilation[0] == other.dilation[0] && self.dilation[1]
            == other.dilation[1] && self.groups == other.groups && self.in_channels
            == other.in_channels && self.out_channels == other.out_channels && self.height
            == other.height && self.width == other.width && self.batch_size == other.batch_size
            && self.has_bias == other.has_bias;
        proof {
            if b {
                assert(self.kernel_size =~= other.kernel_size);
                assert(self.stride =~= other.stride);
                assert(self.padding =~= other.padding);
                assert(self.padding_out =~= other.padding_out);
                assert(self.dilation =~= other.dilation);
            }
        }
        b
    }
}

/// Two keys are equal exactly if they agree on the kernel size, the options,
/// the presence of a bias and the five anchored sizes, whatever the sizes were
/// before they were anchored.
pub proof fn lemma_key_equality(a: ConvTranspose2dAutotuneKey, b: ConvTranspose2dAutotuneKey)
    ensures
        a == b <==> {
            &&& a.kernel_size[0] == b.kernel_size[0]
            &&& a.kernel_size[1] == b.kernel_size[1]
            &&& a.stride[0] == b.stride[0]
            &&& a.stride[1] == b.stride[1]
            &&& a.padding[0] == b.padding[0]
            &&& a.padding[1] == b.padding[1]
            &&& a.padding_out[0] == b.padding_out[0]
            &&& a.padding_out[1] == b.padding_out[1]
            &&& a.dilation[0] == b.dilation[0]
            &&& a.dilation[1] == b.dilation[1]
            &&& a.groups == b.groups
            &&& a.has_bias == b.has_bias
            &&& a.in_channels == b.in_channels
            &&& a.out_channels == b.out_channels
            &&& a.height == b.height
            &&& a.width == b.width
            &&& a.batch_size == b.batch_size
        },
{
    if a.kernel_size[0] == b.kernel_size[0] && a.kernel_size[1] == b.kernel_size[1] {
        assert(a.kernel_size =~= b.kernel_size);
    }
    if a.stride[0] == b.stride[0] && a.stride[1] == b.stride[1] {
        assert(a.stride =~= b.stride);
    }
    if a.padding[0] == b.padding[0] && a.padding[1] == b.padding[1] {
        assert(a.padding =~= b.padding);
    }
    if a.padding_out[0] == b.padding_out[0] && a.padding_out[1] == b.padding_out[1] {
        assert(a.padding_out =~= b.padding_out);
    }
    if a.dilation[0] == b.dilation[0] && a.dilation[1] == b.dilation[1] {
        assert(a.dilation =~= b.dilation);
    }
}

/// Number of output channels of a transposed convolution: the weights hold
/// the output channels of one group in their second dimension.
pub open spec fn spec_out_channels(weights: [usize; 4], options: ConvTransposeOptions) -> int {
    weights[1] * options.groups
}

/// The sizes of a call can be anchored.
pub open spec fn call_anchorable(
    input: [usize; 4],
    weights: [usize; 4],
    options: ConvTransposeOptions,
) -> bool {
    &&& spec_out_channels(weights, options) <= ANCHOR_LIMIT
    &&& ConvTranspose2dAutotuneKey::anchorable(
        input[1],
        spec_out_channels(weights, options) as usize,
        input[2],
        input[3],
        input[0],
    )
}

/// `key` can be the key of a call: it holds the kernel size, the options and
/// the presence of a bias as they are, and each of its sizes is anchored from
/// the call's: the input's batch size, channels, height and width, and the
/// number of output channels.
pub open spec fn is_key_of_call(
    input: [usize; 4],
    weights: [usize; 4],
    has_bias: bool,
    options: ConvTransposeOptions,
    key: ConvTranspose2dAutotuneKey,
) -> bool {
    &&& key.kernel_size@ == seq![weights[2], weights[3]]
    &&& key.stride == options.stride
    &&& key.padding == options.padding
    &&& key.padding_out == options.padding_out
    &&& key.dilation == options.dilation
    &&& key.groups == options.groups
    &&& key.has_bias == has_bias
    &&& is_anchor_of(input[1], key.in_channels)
    &&& is_anchor_of(spec_out_channels(weights, options) as usize, key.out_channels)
    &&& is_anchor_of(input[2], key.height)
    &&& is_anchor_of(input[3], key.width)
    &&& is_anchor_of(input[0], key.batch_size)
}

/// The key of a transposed convolution of an input of shape (batch, channels,
/// height, width) with weights of shape (input channels, output channels per
/// group, kernel height, kernel width).
pub fn create_key(
    input: [usize; 4],
    weights: [usize; 4],
    has_bias: bool,
    options: &ConvTransposeOptions,
) -> (r: Result<AutotuneKey, ConvError>)
    ensures
        match r {
            Ok(AutotuneKey::ConvTranspose2d(key)) => call_anchorable(input, weights, *options)
                && is_key_of_call(input, weights, has_bias, *options, key),
            Ok(_) => false,
            Err(e) => e == ConvError::DimensionTooLarge && !call_anchorable(
                input,
                weights,
                *options,
            ),
        },
{
    let batch_size = input[0];
    let in_channels = input[1];
    let height = input[2];
    let width = input[3];
    let out_channels = match weights[1].checked_mul(options.groups) {
        Some(channels) => channels,
        None => {
            return Err(ConvError::DimensionTooLarge);
        },
    };
    let kernel_size: [usize; 2] = [weights[2], weights[3]];
    match ConvTranspose2dAutotuneKey::new(
        kernel_size,
        options.stride,
        options.padding,
        options.padding_out,
        options.dilation,
        options.groups,
        in_channels,
        out_channels,
        height,
        width,
        batch_size,
        has_bias,
    ) {
        Ok(key) => Ok(AutotuneKey::ConvTranspose2d(key)),
        Err(e) => Err(e),
    }
}

/// The shapes of the benchmark tensors for a key: the weights of a transposed
/// convolution hold the input channels first, then the output channels of one
/// group.
pub open spec fn spec_test_inputs(key: ConvTranspose2dAutotuneKey) -> Inputs {
    Inputs {
        input: [key.batch_size, key.in_channels, key.height, key.width],
        weights: [
            key.in_channels,
            key.out_channels / key.groups,
            key.kernel_size[0],
            key.kernel_size[1],
        ],
        bias: if key.has_bias {
            Some(key.out_channels)
        } else {
            None
        },
    }
}

/// The shapes of the tensors to benchmark on: an input of the key's batch size,
/// channels, height and width, weights of the key's input channels, output
/// channels per group and kernel size, and a bias of one value per output
/// channel where the key has one.  A key without groups is refused.
pub fn test_inputs_transpose(key: &ConvTranspose2dAutotuneKey) -> (r: Result<Inputs, ConvError>)
    ensures
        key.groups >= 1 ==> r == Ok::<Inputs, ConvError>(spec_test_inputs(*key)),
        key.groups == 0 ==> r == Err::<Inputs, ConvError>(ConvError::InvalidOptions),
{
    if key.groups == 0 {
        return Err(ConvError::InvalidOptions);
    }
    let input: [usize; 4] = [key.batch_size, key.in_channels, key.height, key.width];
    let out_per_grp = key.out_channels / key.groups;
    let weights: [usize; 4] = [
        key.in_channels,
        out_per_grp,
        key.kernel_size[0],
        key.kernel_size[1],
    ];
    let bias = if key.has_bias {
        Some(key.out_channels)
    } else {
        None
    };
    let inputs = Inputs { input, weights, bias };
    proof {
        assert(inputs.input =~= spec_test_inputs(*key).input);
        assert(inputs.weights =~= spec_test_inputs(*key).weights);
    }
    Ok(inputs)
}

/// The tune set of the transposed convolution: the shapes to benchmark on and the
/// candidates in their order, the direct kernel and the GEMM kernel.
pub fn conv_transpose2d_operations(key: &ConvTranspose2dAutotuneKey) -> (r: Result<
    (Inputs, Vec<ConvKernel>),
    ConvError,
>)
    ensures
        key.groups >= 1 ==> r is Ok && r->Ok_0.0 == spec_test_inputs(*key) && r->Ok_0.1@ == seq![
            ConvKernel::Direct,
            ConvKernel::Gemm,
        ],
        key.groups == 0 ==> r == Err::<(Inputs, Vec<ConvKernel>), ConvError>(
            ConvError::InvalidOptions,
        ),
{
    match test_inputs_transpose(key) {
        Ok(inputs) => Ok((inputs, vec![ConvKernel::Direct, ConvKernel::Gemm])),
        Err(e) => Err(e),
    }
}

/// What [`conv_transpose2d_autotune`] makes of a key.
pub open spec fn spec_autotune(
    cache: Map<(u64, AutotuneKey), usize>,
    device: u64,
    key: ConvTranspose2dAutotuneKey,
) -> Result<Tuning, ConvError> {
    match spec_decide(cache, device, AutotuneKey::ConvTranspose2d(key), CANDIDATES) {
        TuneDecision::Replay { fastest } => Ok(Tuning::Run { kernel: spec_candidate(fastest) }),
        TuneDecision::Benchmark => if key.groups >= 1 {
            Ok(
                Tuning::Benchmark {
                    key: AutotuneKey::ConvTranspose2d(key),
                    inputs: spec_test_inputs(key),
                },
            )
        } else {
            Err(ConvError::InvalidOptions)
        },
    }
}

/// Looks a key up: a remembered decision is replayed, anything else is
/// benchmarked.
pub fn autotune_key(tuner: &Autotuner, device: u64, key: &ConvTranspose2dAutotuneKey) -> (r: Result<
    Tuning,
    ConvError,
>)
    ensures
        r == spec_autotune(tuner@, device, *key),
{
    let wrapped = AutotuneKey::ConvTranspose2d(*key);
    match tuner.decide(device, &wrapped, CANDIDATES) {
        TuneDecision::Replay { fastest } => {
            if fastest == 0 {
                Ok(Tuning::Run { kernel: ConvKernel::Direct })
            } else {
                Ok(Tuning::Run { kernel: ConvKernel::Gemm })
            }
        },
        TuneDecision::Benchmark => {
            match test_inputs_transpose(key) {
                Ok(inputs) => Ok(Tuning::Benchmark { key: wrapped, inputs }),
                Err(e) => Err(e),
            }
        },
    }
}

/// What autotuning may make of a call.  Sizes that cannot be anchored are
/// refused; for the others the result is that of looking up a key of the call.
pub open spec fn is_autotune_result(
    cache: Map<(u64, AutotuneKey), usize>,
    device: u64,
    input: [usize; 4],
    weights: [usize; 4],
    has_bias: bool,
    options: ConvTransposeOptions,
    r: Result<Tuning, ConvError>,
) -> bool {
    if !call_anchorable(input, weights, options) {
        r == Err::<Tuning, ConvError>(ConvError::DimensionTooLarge)
    } else {
        exists|key: ConvTranspose2dAutotuneKey|
            #[trigger] spec_autotune(cache, device, key) == r && is_key_of_call(
                input,
                weights,
                has_bias,
                options,
                key,
            )
    }
}

/// Autotunes a transposed convolution: makes the key of the call and looks it up.  Where
/// the key is remembered, the remembered kernel is to be run and nothing is
/// measured; else the candidates are to be benchmarked on tensors of the key's
/// shapes.
pub fn conv_transpose2d_autotune(
    tuner: &Autotuner,
    device: u64,
    input: [usize; 4],
    weights: [usize; 4],
    has_bias: bool,
    options: &ConvTransposeOptions,
) -> (r: Result<Tuning, ConvError>)
    ensures
        is_autotune_result(tuner@, device, input, weights, has_bias, *options, r),
{
    match create_key(input, weights, has_bias, options) {
        Ok(AutotuneKey::ConvTranspose2d(key)) => {
            let r = autotune_key(tuner, device, &key);
            proof {
                assert(spec_autotune(tuner@, device, key) == r);
            }
            r
        },
        Ok(_) => Err(ConvError::DimensionTooLarge),
        Err(e) => Err(e),
    }
}

/// The benchmark shapes of a key fit together: where the key's groups divide
/// its channel counts, a transposed convolution of these shapes is a valid call
/// but for the sizes of its output, and its output has the key's batch size and
/// output channels.
pub proof fn lemma_benchmark_shapes_fit(
    key: ConvTranspose2dAutotuneKey,
    options: ConvTransposeOptions,
)
    requires
        options.valid(),
        options.groups == key.groups,
        key.kernel_size[0] >= 1,
        key.kernel_size[1] >= 1,
        key.in_channels % key.groups == 0,
        key.out_channels % key.groups == 0,
    ensures
        ({
            let inputs = spec_test_inputs(key);
            &&& inputs.weights[0] == inputs.input[1]
            &&& match crate::dispatch::spec_conv_transpose2d_shape(
                inputs.input,
                inputs.weights,
                inputs.bias,
                options,
            ) {
                Ok(shape) => shape[0] == key.batch_size && shape[1] == key.out_channels,
                Err(e) => e == ConvError::SizeOutOfRange,
            }
        }),
{
    vstd::arithmetic::div_mod::lemma_fundamental_div_mod(
        key.out_channels as int,
        key.groups as int,
    );
    vstd::arithmetic::mul::lemma_mul_is_commutative(
        key.groups as int,
        key.out_channels as int / key.groups as int,
    );
}

} // verus!
