//! Autotuning of the convolution.

use vstd::prelude::*;
use crate::options::{ConvError, ConvOptions};
use crate::tune::{
    anchor_dim, is_anchor_of, spec_decide, AutotuneKey, Autotuner, ConvKernel, TuneDecision,
    ANCHOR_LIMIT,
};

verus! {

/// Key of one class of convolution problems.  The kernel size and the options
/// are kept as they are; the channel counts, the spatial sizes and the batch
/// size are anchored, so that nearby sizes share a key.
#[derive(Clone, Copy, Debug, PartialEq, Eq, Hash)]
pub struct Conv2dAutotuneKey {
    pub kernel_size: [usize; 2],
    pub stride: [usize; 2],
    pub padding: [usize; 2],
    pub dilation: [usize; 2],
    pub groups: usize,
    pub in_channels: usize,
    pub out_channels: usize,
    pub height: usize,
    pub width: usize,
    pub batch_size: usize,
    pub has_bias: bool,
}

/// The shapes of the tensors that the candidates are measured on: freshly
/// made for the benchmark, never the caller's own.
#[derive(Clone, Copy, Debug, PartialEq, Eq, Hash)]
pub struct Inputs {
    pub input: [usize; 4],
    pub weights: [usize; 4],
    /// Length of the bias, where the key has one.
    pub bias: Option<usize>,
}

/// What autotuning asks of the caller.
#[derive(Clone, Copy, Debug, PartialEq, Eq, Hash)]
pub enum Tuning {
    /// Run this kernel on the caller's tensors.
    Run { kernel: ConvKernel },
    /// Measure both candidates, [`ConvKernel::Direct`] first, on tensors of the
    /// given shapes, report the outcomes to the autotuner under the key, and
    /// run the candidate it returns on the caller's tensors.
    Benchmark { key: AutotuneKey, inputs: Inputs },
}

/// The candidate with a given index: the direct kernel comes first.
pub open spec fn spec_candidate(index: usize) -> ConvKernel {
    if index == 0 {
        ConvKernel::Direct
    } else {
        ConvKernel::Gemm
    }
}

/// Number of candidates.
pub const CANDIDATES: usize = 2;

/// The candidate with a given index, for an index below [`CANDIDATES`].
pub fn candidate(index: usize) -> (kernel: Option<ConvKernel>)
    ensures
        index < CANDIDATES ==> kernel == Some(spec_candidate(index)),
        index >= CANDIDATES ==> kernel is None,
{
    if index == 0 {
        Some(ConvKernel::Direct)
    } else if index == 1 {
        Some(ConvKernel::Gemm)
    } else {
        None
    }
}

impl Conv2dAutotuneKey {
    /// The five sizes can be anchored.
    pub open spec fn anchorable(
        in_channels: usize,
        out_channels: usize,
        height: usize,
        width: usize,
        batch_size: usize,
    ) -> bool {
        &&& in_channels <= ANCHOR_LIMIT
        &&& out_channels <= ANCHOR_LIMIT
        &&& height <= ANCHOR_LIMIT
        &&& width <= ANCHOR_LIMIT
        &&& batch_size <= ANCHOR_LIMIT
    }

    /// Makes a key: the kernel size and the options are copied, each of the five
    /// sizes is anchored into the field of its name.  A size above
    /// [`ANCHOR_LIMIT`] is refused.
    pub fn new(
        kernel_size: [usize; 2],
        stride: [usize; 2],
        padding: [usize; 2],
        dilation: [usize; 2],
        groups: usize,
        in_channels: usize,
        out_channels: usize,
        height: usize,
        width: usize,
        batch_size: usize,
        has_bias: bool,
    ) -> (r: Result<Self, ConvError>)
        ensures
            match r {
                Ok(key) => {
                    &&& Self::anchorable(in_channels, out_channels, height, width, batch_size)
                    &&& key.kernel_size == kernel_size
                    &&& key.stride == stride
                    &&& key.padding == padding
                    &&& key.dilation == dilation
                    &&& key.groups == groups
                    &&& key.has_bias == has_bias
                    &&& is_anchor_of(in_channels, key.in_channels)
                    &&& is_anchor_of(out_channels, key.out_channels)
                    &&& is_anchor_of(height, key.height)
                    &&& is_anchor_of(width, key.width)
                    &&& is_anchor_of(batch_size, key.batch_size)
                },
                Err(e) => e == ConvError::DimensionTooLarge && !Self::anchorable(
                    in_channels,
                    out_channels,
                    height,
                    width,
                    batch_size,
                ),
            },
    {
        match (
            anchor_dim(in_channels),
            anchor_dim(out_channels),
            anchor_dim(height),
            anchor_dim(width),
            anchor_dim(batch_size),
        ) {
            (Some(in_channels), Some(out_channels), Some(height), Some(width), Some(batch_size)) => Ok(
                Conv2dAutotuneKey {
                    kernel_size,
                    stride,
                    padding,
                    dilation,
                    groups,
                    in_channels,
                    out_channels,
                    height,
                    width,
                    batch_size,
                    has_bias,
                },
            ),
            _ => Err(ConvError::DimensionTooLarge),
        }
    }

    /// Tells whether two keys are equal: all their fields are.
    pub fn same(&self, other: &Self) -> (b: bool)
        ensures
            b == (*self == *other),
    {
        let b = self.kernel_size[0] == other.kernel_size[0] && self.kernel_size[1]
            == other.kernel_size[1] && self.stride[0] == other.stride[0] && self.stride[1]
            == other.stride[1] && self.padding[0] == other.padding[0] && self.padding[1]
            == other.padding[1] && self.dilation[0] == other.dilation[0] && self.dilation[1]
            == other.dilation[1] && self.groups == other.groups && self.in_channels
            == other.in_channels && self.out_channels == other.out_channels && self.height
            == other.height && self.width == other.width && self.batch_size == other.batch_size
            && self.has_bias == other.has_bias;
        proof {
            if b {
                assert(self.kernel_size =~= other.kernel_size);
                assert(self.stride =~= other.stride);
                assert(self.padding =~= other.padding);
                assert(self.dilation =~= other.dilation);
            }
        }
        b
    }
}

/// Two keys are equal exactly if they agree on the kernel size, the options,
/// the presence of a bias and the five anchored sizes, whatever the sizes were
/// before they were anchored.
pub proof fn lemma_key_equality(a: Conv2dAutotuneKey, b: Conv2dAutotuneKey)
    ensures
        a == b <==> {
            &&& a.kernel_size[0] == b.kernel_size[0]
            &&& a.kernel_size[1] == b.kernel_size[1]
            &&& a.stride[0] == b.stride[0]
            &&& a.stride[1] == b.stride[1]
            &&& a.padding[0] == b.padding[0]
            &&& a.padding[1] == b.padding[1]
            &&& a.dilation[0] == b.dilation[0]
            &&& a.dilation[1] == b.dilation[1]
            &&& a.groups == b.groups
            &&& a.has_bias == b.has_bias
            &&& a.in_channels == b.in_channels
            &&& a.out_channels == b.out_channels
            &&& a.height == b.height
            &&& a.width == b.width
            &&& a.batch_size == b.batch_size
        },
{
    if a.kernel_size[0] == b.kernel_size[0] && a.kernel_size[1] == b.kernel_size[1] {
        assert(a.kernel_size =~= b.kernel_size);
    }
    if a.stride[0] == b.stride[0] && a.stride[1] == b.stride[1] {
        assert(a.stride =~= b.stride);
    }
    if a.padding[0] == b.padding[0] && a.padding[1] == b.padding[1] {
        assert(a.padding =~= b.padding);
    }
    if a.dilation[0] == b.dilation[0] && a.dilation[1] == b.dilation[1] {
        assert(a.dilation =~= b.dilation);
    }
}

/// The sizes of a call can be anchored.
pub open spec fn call_anchorable(input: [usize; 4], weights: [usize; 4]) -> bool {
    Conv2dAutotuneKey::anchorable(input[1], weights[0], input[2], input[3], input[0])
}

/// `key` can be the key of a call: it holds the kernel size, the options and
/// the presence of a bias as they are, and each of its sizes is anchored from
/// the call's: the input's batch size, channels, height and width, and the
/// weights' output channels.
pub open spec fn is_key_of_call(
    input: [usize; 4],
    weights: [usize; 4],
    has_bias: bool,
    options: ConvOptions,
    key: Conv2dAutotuneKey,
) -> bool {
    &&& key.kernel_size@ == seq![weights[2], weights[3]]
    &&& key.stride == options.stride
    &&& key.padding == options.padding
    &&& key.dilation == options.dilation
    &&& key.groups == options.groups
    &&& key.has_bias == has_bias
    &&& is_anchor_of(input[1], key.in_channels)
    &&& is_anchor_of(weights[0], key.out_channels)
    &&& is_anchor_of(input[2], key.height)
    &&& is_anchor_of(input[3], key.width)
    &&& is_anchor_of(input[0], key.batch_size)
}

/// The key of a convolution of an input of shape (batch, channels, height,
/// width) with weights of shape (output channels, channels per group, kernel
/// height, kernel width).
pub fn create_key(
    input: [usize; 4],
    weights: [usize; 4],
    has_bias: bool,
    options: &ConvOptions,
) -> (r: Result<AutotuneKey, ConvError>)
    ensures
        match r {
            Ok(AutotuneKey::Conv2d(key)) => call_anchorable(input, weights) && is_key_of_call(
                input,
                weights,
                has_bias,
                *options,
                key,
            ),
            Ok(_) => false,
            Err(e) => e == ConvError::DimensionTooLarge && !call_anchorable(input, weights),
        },
{
    let batch_size = input[0];
    let in_channels = input[1];
    let height = input[2];
    let width = input[3];
    let out_channels = weights[0];
    let kernel_size: [usize; 2] = [weights[2], weights[3]];
    match Conv2dAutotuneKey::new(
        kernel_size,
        options.stride,
        options.padding,
        options.dilation,
        options.groups,
        in_channels,
        out_channels,
        height,
        width,
        batch_size,
        has_bias,
    ) {
        Ok(key) => Ok(AutotuneKey::Conv2d(key)),
        Err(e) => Err(e),
    }
}

/// The shapes of the benchmark tensors for a key.
pub open spec fn spec_test_inputs(key: Conv2dAutotuneKey) -> Inputs {
    Inputs {
        input: [key.batch_size, key.in_channels, key.height, key.width],
        weights: [
            key.out_channels,
            key.in_channels / key.groups,
            key.kernel_size[0],
            key.kernel_size[1],
        ],
        bias: if key.has_bias {
            Some(key.out_channels)
        } else {
            None
        },
    }
}

/// The shapes of the tensors to benchmark on: an input of the key's batch size,
/// channels, height and width, weights of the key's output channels, channels
/// per group and kernel size, and a bias of one value per output channel where
/// the key has one.  A key without groups is refused.
pub fn test_inputs(key: &Conv2dAutotuneKey) -> (r: Result<Inputs, ConvError>)
    ensures
        key.groups >= 1 ==> r == Ok::<Inputs, ConvError>(spec_test_inputs(*key)),
        key.groups == 0 ==> r == Err::<Inputs, ConvError>(ConvError::InvalidOptions),
{
    if key.groups == 0 {
        return Err(ConvError::InvalidOptions);
    }
    let input: [usize; 4] = [key.batch_size, key.in_channels, key.height, key.width];
    let c_per_grp = key.in_channels / key.groups;
    let weights: [usize; 4] = [key.out_channels, c_per_grp, key.kernel_size[0], key.kernel_size[1]];
    let bias = if key.has_bias {
        Some(key.out_channels)
    } else {
        None
    };
    let inputs = Inputs { input, weights, bias };
    proof {
        assert(inputs.input =~= spec_test_inputs(*key).input);
        assert(inputs.weights =~= spec_test_inputs(*key).weights);
    }
    Ok(inputs)
}

/// The tune set of the convolution: the shapes to benchmark on and the
/// candidates in their order, the direct kernel and the GEMM kernel.
pub fn conv2d_operations(key: &Conv2dAutotuneKey) -> (r: Result<
    (Inputs, Vec<ConvKernel>),
    ConvError,
>)
    ensures
        key.groups >= 1 ==> r is Ok && r->Ok_0.0 == spec_test_inputs(*key) && r->Ok_0.1@ == seq![
            ConvKernel::Direct,
            ConvKernel::Gemm,
        ],
        key.groups == 0 ==> r == Err::<(Inputs, Vec<ConvKernel>), ConvError>(
            ConvError::InvalidOptions,
        ),
{
    match test_inputs(key) {
        Ok(inputs) => Ok((inputs, vec![ConvKernel::Direct, ConvKernel::Gemm])),
        Err(e) => Err(e),
    }
}

/// What [`conv2d_autotune`] makes of a key.
pub open spec fn spec_autotune(
    cache: Map<(u64, AutotuneKey), usize>,
    device: u64,
    key: Conv2dAutotuneKey,
) -> Result<Tuning, ConvError> {
    match spec_decide(cache, device, AutotuneKey::Conv2d(key), CANDIDATES) {
        TuneDecision::Replay { fastest } => Ok(Tuning::Run { kernel: spec_candidate(fastest) }),
        TuneDecision::Benchmark => if key.groups >= 1 {
            Ok(Tuning::Benchmark { key: AutotuneKey::Conv2d(key), inputs: spec_test_inputs(key) })
        } else {
            Err(ConvError::InvalidOptions)
        },
    }
}

/// Looks a key up: a remembered decision is replayed, anything else is
/// benchmarked.
pub fn autotune_key(tuner: &Autotuner, device: u64, key: &Conv2dAutotuneKey) -> (r: Result<
    Tuning,
    ConvError,
>)
    ensures
        r == spec_autotune(tuner@, device, *key),
{
    let wrapped = AutotuneKey::Conv2d(*key);
    match tuner.decide(device, &wrapped, CANDIDATES) {
        TuneDecision::Replay { fastest } => {
            if fastest == 0 {
                Ok(Tuning::Run { kernel: ConvKernel::Direct })
            } else {
                Ok(Tuning::Run { kernel: ConvKernel::Gemm })
            }
        },
        TuneDecision::Benchmark => {
            match test_inputs(key) {
                Ok(inputs) => Ok(Tuning::Benchmark { key: wrapped, inputs }),
                Err(e) => Err(e),
            }
        },
    }
}

/// What autotuning may make of a call.  Sizes that cannot be anchored are
/// refused; for the others the result is that of looking up a key of the call.
pub open spec fn is_autotune_result(
    cache: Map<(u64, AutotuneKey), usize>,
    device: u64,
    input: [usize; 4],
    weights: [usize; 4],
    has_bias: bool,
    options: ConvOptions,
    r: Result<Tuning, ConvError>,
) -> bool {
    if !call_anchorable(input, weights) {
        r == Err::<Tuning, ConvError>(ConvError::DimensionTooLarge)
    } else {
        exists|key: Conv2dAutotuneKey|
            #[trigger] spec_autotune(cache, device, key) == r && is_key_of_call(
                input,
                weights,
                has_bias,
                options,
                key,
            )
    }
}

/// Autotunes a convolution: makes the key of the call and looks it up.  Where
/// the key is remembered, the remembered kernel is to be run and nothing is
/// measured; else the candidates are to be benchmarked on tensors of the key's
/// shapes.
pub fn conv2d_autotune(
    tuner: &Autotuner,
    device: u64,
    input: [usize; 4],
    weights: [usize; 4],
    has_bias: bool,
    options: &ConvOptions,
) -> (r: Result<Tuning, ConvError>)
    ensures
        is_autotune_result(tuner@, device, input, weights, has_bias, *options, r),
{
    match create_key(input, weights, has_bias, options) {
        Ok(AutotuneKey::Conv2d(key)) => {
            let r = autotune_key(tuner, device, &key);
            proof {
                assert(spec_autotune(tuner@, device, key) == r);
            }
            r
        },
        Ok(_) => Err(ConvError::DimensionTooLarge),
        Err(e) => Err(e),
    }
}

/// The benchmark shapes of a key fit together: where the key's groups divide
/// its channel counts, a convolution of these shapes is a valid call but for
/// the sizes of its output, and its output has the key's batch size and output
/// channels.
pub proof fn lemma_benchmark_shapes_fit(key: Conv2dAutotuneKey, options: ConvOptions)
    requires
        options.valid(),
        options.groups == key.groups,
        key.kernel_size[0] >= 1,
        key.kernel_size[1] >= 1,
        key.in_channels % key.groups == 0,
        key.out_channels % key.groups == 0,
    ensures
        ({
            let inputs = spec_test_inputs(key);
            match crate::dispatch::spec_conv2d_shape(
                inputs.input,
                inputs.weights,
                inputs.bias,
                options,
            ) {
                Ok(shape) => shape[0] == key.batch_size && shape[1] == key.out_channels,
                Err(e) => e == ConvError::SizeOutOfRange,
            }
        }),
{
}

} // verus!
