use conv_engine::options::{ConvError, ConvOptions, ConvTransposeOptions};
use conv_engine::tune::conv2d::{
    autotune_key, candidate, conv2d_autotune, conv2d_operations, create_key, test_inputs,
    Conv2dAutotuneKey, Inputs, Tuning, CANDIDATES,
};
use conv_engine::dispatch::{conv2d_shape, conv_transpose2d_shape};
use conv_engine::tune::transpose2d::{
    conv_transpose2d_autotune, conv_transpose2d_operations, test_inputs_transpose,
    ConvTranspose2dAutotuneKey,
};
use conv_engine::tune::{
    anchor_dim, select_fastest, AutotuneKey, Autotuner, ConvKernel, TuneDecision, TuneError,
    ANCHOR_LIMIT,
};

fn options() -> ConvOptions {
    ConvOptions::new([1, 1], [1, 1], [1, 1], 1)
}

fn conv_key(batch: usize) -> AutotuneKey {
    create_key([batch, 3, 32, 32], [8, 3, 3, 3], true, &options()).unwrap()
}

#[test]
fn anchoring_rounds_up_to_a_power_of_two() {
    assert_eq!(anchor_dim(0), Some(1));
    assert_eq!(anchor_dim(1), Some(1));
    assert_eq!(anchor_dim(2), Some(2));
    assert_eq!(anchor_dim(3), Some(4));
    assert_eq!(anchor_dim(5), Some(8));
    assert_eq!(anchor_dim(16), Some(16));
    assert_eq!(anchor_dim(17), Some(32));
    assert_eq!(anchor_dim(1000), Some(1024));
    assert_eq!(anchor_dim(ANCHOR_LIMIT), Some(ANCHOR_LIMIT));
}

#[test]
fn anchoring_refuses_what_is_above_the_limit() {
    assert_eq!(anchor_dim(ANCHOR_LIMIT + 1), None);
    assert_eq!(anchor_dim(usize::MAX), None);
}

#[test]
fn anchored_values_are_powers_of_two() {
    for x in 0..5000usize {
        let anchored = anchor_dim(x).unwrap();
        assert!(anchored.is_power_of_two());
        assert!(anchored <= 1 << 31);
    }
}

#[test]
fn key_keeps_the_options_and_anchors_the_sizes() {
    let options = ConvOptions::new([2, 3], [1, 0], [1, 2], 3);
    let key = create_key([5, 6, 30, 60], [9, 2, 3, 5], false, &options).unwrap();
    assert_eq!(
        key,
        AutotuneKey::Conv2d(Conv2dAutotuneKey {
            kernel_size: [3, 5],
            stride: [2, 3],
            padding: [1, 0],
            dilation: [1, 2],
            groups: 3,
            in_channels: 8,
            out_channels: 16,
            height: 32,
            width: 64,
            batch_size: 8,
            has_bias: false,
        })
    );
}

#[test]
fn transpose_key_keeps_the_output_padding() {
    let options = ConvTransposeOptions::new([2, 3], [1, 0], [1, 2], [1, 2], 2);
    // 6 input channels; 3 output channels in each of the 2 groups
    let key =
        conv_engine::tune::transpose2d::create_key([5, 6, 30, 60], [6, 3, 3, 5], true, &options)
            .unwrap();
    assert_eq!(
        key,
        AutotuneKey::ConvTranspose2d(ConvTranspose2dAutotuneKey {
            kernel_size: [3, 5],
            stride: [2, 3],
            padding: [1, 0],
            padding_out: [1, 2],
            dilation: [1, 2],
            groups: 2,
            in_channels: 8,
            out_channels: 8,
            height: 32,
            width: 64,
            batch_size: 8,
            has_bias: true,
        })
    );
}

#[test]
fn key_of_sizes_above_the_limit_is_refused() {
    let big = ANCHOR_LIMIT + 1;
    assert_eq!(create_key([big, 3, 32, 32], [8, 3, 3, 3], true, &options()), Err(ConvError::DimensionTooLarge));
    assert_eq!(create_key([1, big, 32, 32], [8, 3, 3, 3], true, &options()), Err(ConvError::DimensionTooLarge));
    assert_eq!(create_key([1, 3, big, 32], [8, 3, 3, 3], true, &options()), Err(ConvError::DimensionTooLarge));
    assert_eq!(create_key([1, 3, 32, big], [8, 3, 3, 3], true, &options()), Err(ConvError::DimensionTooLarge));
    assert_eq!(create_key([1, 3, 32, 32], [big, 3, 3, 3], true, &options()), Err(ConvError::DimensionTooLarge));
    // the kernel size is not anchored
    assert!(create_key([1, 3, 32, 32], [8, 3, big, 3], true, &options()).is_ok());
}

#[test]
fn keys_of_the_same_bucket_are_equal() {
    assert_eq!(conv_key(5), conv_key(7));
    assert_eq!(conv_key(8), conv_key(5));
    assert!(conv_key(5).same(&conv_key(7)));
    assert_ne!(conv_key(8), conv_key(9));
    assert!(!conv_key(8).same(&conv_key(9)));
}

#[test]
fn keys_differ_in_any_field() {
    let base = Conv2dAutotuneKey::new([3, 3], [1, 1], [0, 0], [1, 1], 1, 4, 4, 4, 4, 4, false).unwrap();
    assert!(base.same(&base));
    let mut other = base;
    other.kernel_size = [3, 2];
    assert!(!base.same(&other));
    let mut other = base;
    other.stride = [2, 1];
    assert!(!base.same(&other));
    let mut other = base;
    other.padding = [0, 1];
    assert!(!base.same(&other));
    let mut other = base;
    other.dilation = [1, 2];
    assert!(!base.same(&other));
    let mut other = base;
    other.groups = 2;
    assert!(!base.same(&other));
    let mut other = base;
    other.has_bias = true;
    assert!(!base.same(&other));
    let mut other = base;
    other.width = 8;
    assert!(!base.same(&other));
}

#[test]
fn keys_of_different_operations_differ() {
    let conv = Conv2dAutotuneKey::new([3, 3], [1, 1], [0, 0], [1, 1], 1, 4, 4, 4, 4, 4, false).unwrap();
    let transpose = ConvTranspose2dAutotuneKey::new(
        [3, 3], [1, 1], [0, 0], [0, 0], [1, 1], 1, 4, 4, 4, 4, 4, false,
    )
    .unwrap();
    assert!(!AutotuneKey::Conv2d(conv).same(&AutotuneKey::ConvTranspose2d(transpose)));
    assert!(AutotuneKey::ConvTranspose2d(transpose).same(&AutotuneKey::ConvTranspose2d(transpose)));
    let mut other = transpose;
    other.padding_out = [1, 0];
    assert!(!transpose.same(&other));
}

#[test]
fn benchmark_shapes_come_from_the_key() {
    let key = Conv2dAutotuneKey {
        kernel_size: [3, 5],
        stride: [1, 1],
        padding: [0, 0],
        dilation: [1, 1],
        groups: 4,
        in_channels: 8,
        out_channels: 16,
        height: 32,
        width: 64,
        batch_size: 2,
        has_bias: true,
    };
    let inputs = test_inputs(&key).unwrap();
    assert_eq!(inputs, Inputs { input: [2, 8, 32, 64], weights: [16, 2, 3, 5], bias: Some(16) });
    let mut no_bias = key;
    no_bias.has_bias = false;
    assert_eq!(test_inputs(&no_bias).unwrap().bias, None);
    let mut no_groups = key;
    no_groups.groups = 0;
    assert_eq!(test_inputs(&no_groups), Err(ConvError::InvalidOptions));
}

#[test]
fn transpose_benchmark_shapes_come_from_the_key() {
    let key = ConvTranspose2dAutotuneKey {
        kernel_size: [3, 5],
        stride: [1, 1],
        padding: [0, 0],
        padding_out: [0, 0],
        dilation: [1, 1],
        groups: 4,
        in_channels: 8,
        out_channels: 16,
        height: 32,
        width: 64,
        batch_size: 2,
        has_bias: false,
    };
    let inputs = test_inputs_transpose(&key).unwrap();
    // input channels first, then the output channels of one group
    assert_eq!(inputs, Inputs { input: [2, 8, 32, 64], weights: [8, 4, 3, 5], bias: None });
    let mut with_bias = key;
    with_bias.has_bias = true;
    assert_eq!(test_inputs_transpose(&with_bias).unwrap().bias, Some(16));
    let mut no_groups = key;
    no_groups.groups = 0;
    assert_eq!(test_inputs_transpose(&no_groups), Err(ConvError::InvalidOptions));
}

#[test]
fn tune_sets_list_the_direct_kernel_first() {
    let key = Conv2dAutotuneKey::new([3, 3], [1, 1], [0, 0], [1, 1], 1, 4, 4, 4, 4, 4, false).unwrap();
    let (inputs, candidates) = conv2d_operations(&key).unwrap();
    assert_eq!(inputs, test_inputs(&key).unwrap());
    assert_eq!(candidates, vec![ConvKernel::Direct, ConvKernel::Gemm]);
    assert_eq!(candidates.len(), CANDIDATES);
    let key = ConvTranspose2dAutotuneKey::new(
        [3, 3], [1, 1], [0, 0], [0, 0], [1, 1], 1, 4, 4, 4, 4, 4, false,
    )
    .unwrap();
    let (inputs, candidates) = conv_transpose2d_operations(&key).unwrap();
    assert_eq!(inputs, test_inputs_transpose(&key).unwrap());
    assert_eq!(candidates, vec![ConvKernel::Direct, ConvKernel::Gemm]);
    assert_eq!(candidate(0), Some(ConvKernel::Direct));
    assert_eq!(candidate(1), Some(ConvKernel::Gemm));
    assert_eq!(candidate(2), None);
}

#[test]
fn fastest_is_the_least_median() {
    assert_eq!(select_fastest(&vec![Some(30), Some(10), Some(20)]), Some(1));
    assert_eq!(select_fastest(&vec![Some(10), Some(30)]), Some(0));
    assert_eq!(select_fastest(&vec![Some(7)]), Some(0));
}

#[test]
fn fastest_of_equal_medians_is_the_first() {
    assert_eq!(select_fastest(&vec![Some(10), Some(10)]), Some(0));
    assert_eq!(select_fastest(&vec![Some(20), Some(10), Some(10)]), Some(1));
    assert_eq!(select_fastest(&vec![Some(u64::MAX), Some(u64::MAX)]), Some(0));
}

#[test]
fn fastest_skips_failed_candidates() {
    assert_eq!(select_fastest(&vec![None, Some(50)]), Some(1));
    assert_eq!(select_fastest(&vec![Some(50), None]), Some(0));
    assert_eq!(select_fastest(&vec![None, Some(u64::MAX), None]), Some(1));
    assert_eq!(select_fastest(&vec![None, None]), None);
    assert_eq!(select_fastest(&Vec::new()), None);
}

#[test]
fn new_autotuner_remembers_nothing() {
    let tuner = Autotuner::new();
    assert_eq!(tuner.fastest(0, &conv_key(1)), None);
    assert_eq!(tuner.decide(0, &conv_key(1), 2), TuneDecision::Benchmark);
}

#[test]
fn second_call_replays_without_a_benchmark() {
    let mut tuner = Autotuner::new();
    let mut benchmarks = 0;
    let mut kernels = Vec::new();
    for _ in 0..2 {
        let tuning = conv2d_autotune(&tuner, 0, [4, 3, 32, 32], [8, 3, 3, 3], true, &options()).unwrap();
        match tuning {
            Tuning::Run { kernel } => kernels.push(kernel),
            Tuning::Benchmark { key, inputs } => {
                benchmarks += 1;
                assert_eq!(inputs, Inputs { input: [4, 4, 32, 32], weights: [8, 4, 3, 3], bias: Some(8) });
                let fastest = tuner.conclude(0, &key, &vec![Some(900), Some(400)]).unwrap();
                kernels.push(candidate(fastest).unwrap());
            }
        }
    }
    assert_eq!(benchmarks, 1);
    assert_eq!(kernels, vec![ConvKernel::Gemm, ConvKernel::Gemm]);
}

#[test]
fn calls_of_one_bucket_share_the_decision() {
    let mut tuner = Autotuner::new();
    let first = conv2d_autotune(&tuner, 0, [5, 3, 30, 30], [8, 3, 3, 3], true, &options()).unwrap();
    let Tuning::Benchmark { key, .. } = first else { panic!("nothing is remembered yet") };
    assert_eq!(tuner.conclude(0, &key, &vec![Some(1), Some(2)]), Ok(0));
    // other sizes, same buckets
    let second = conv2d_autotune(&tuner, 0, [7, 4, 32, 17], [6, 3, 3, 3], true, &options()).unwrap();
    assert_eq!(second, Tuning::Run { kernel: ConvKernel::Direct });
    // another bucket of the batch size
    let third = conv2d_autotune(&tuner, 0, [9, 3, 30, 30], [8, 3, 3, 3], true, &options()).unwrap();
    assert!(matches!(third, Tuning::Benchmark { .. }));
    // another kernel size
    let fourth = conv2d_autotune(&tuner, 0, [5, 3, 30, 30], [8, 3, 5, 3], true, &options()).unwrap();
    assert!(matches!(fourth, Tuning::Benchmark { .. }));
    // another device
    let fifth = conv2d_autotune(&tuner, 1, [5, 3, 30, 30], [8, 3, 3, 3], true, &options()).unwrap();
    assert!(matches!(fifth, Tuning::Benchmark { .. }));
    // without a bias
    let sixth = conv2d_autotune(&tuner, 0, [5, 3, 30, 30], [8, 3, 3, 3], false, &options()).unwrap();
    assert!(matches!(sixth, Tuning::Benchmark { .. }));
}

#[test]
fn convolution_and_transposed_convolution_do_not_share_decisions() {
    let mut tuner = Autotuner::new();
    let key = conv_key(4);
    tuner.register(0, &key, 1);
    let options = ConvTransposeOptions::new([1, 1], [1, 1], [0, 0], [1, 1], 1);
    let tuning = conv_transpose2d_autotune(&tuner, 0, [4, 3, 32, 32], [3, 8, 3, 3], true, &options).unwrap();
    assert!(matches!(tuning, Tuning::Benchmark { key: AutotuneKey::ConvTranspose2d(_), .. }));
    let Tuning::Benchmark { key, .. } = tuning else { unreachable!() };
    assert_eq!(tuner.conclude(0, &key, &vec![Some(5), Some(4)]), Ok(1));
    let again = conv_transpose2d_autotune(&tuner, 0, [4, 3, 32, 32], [3, 8, 3, 3], true, &options).unwrap();
    assert_eq!(again, Tuning::Run { kernel: ConvKernel::Gemm });
}

#[test]
fn a_failed_candidate_is_left_out() {
    let mut tuner = Autotuner::new();
    let key = conv_key(4);
    assert_eq!(tuner.conclude(0, &key, &vec![None, Some(1_000_000)]), Ok(1));
    assert_eq!(tuner.fastest(0, &key), Some(1));
    assert_eq!(tuner.decide(0, &key, 2), TuneDecision::Replay { fastest: 1 });
}

#[test]
fn a_failed_benchmark_is_not_remembered() {
    let mut tuner = Autotuner::new();
    let key = conv_key(4);
    assert_eq!(
        tuner.conclude(0, &key, &vec![None, None]),
        Err(TuneError::AllCandidatesFailed { last: 1 })
    );
    assert_eq!(tuner.fastest(0, &key), None);
    assert_eq!(tuner.decide(0, &key, 2), TuneDecision::Benchmark);
    assert_eq!(tuner.conclude(0, &key, &Vec::new()), Err(TuneError::NoCandidates));
    assert_eq!(tuner.fastest(0, &key), None);
}

#[test]
fn a_failed_benchmark_keeps_an_earlier_decision() {
    let mut tuner = Autotuner::new();
    let key = conv_key(4);
    assert_eq!(tuner.conclude(0, &key, &vec![Some(3), Some(9)]), Ok(0));
    assert_eq!(
        tuner.conclude(0, &key, &vec![None, None]),
        Err(TuneError::AllCandidatesFailed { last: 1 })
    );
    assert_eq!(tuner.fastest(0, &key), Some(0));
}

#[test]
fn a_later_decision_replaces_an_earlier_one() {
    let mut tuner = Autotuner::new();
    let key = conv_key(4);
    let other = conv_key(100);
    tuner.register(0, &key, 0);
    tuner.register(0, &other, 1);
    tuner.register(0, &key, 1);
    assert_eq!(tuner.fastest(0, &key), Some(1));
    assert_eq!(tuner.fastest(0, &other), Some(1));
    tuner.register(0, &other, 0);
    assert_eq!(tuner.fastest(0, &key), Some(1));
    assert_eq!(tuner.fastest(0, &other), Some(0));
    assert_eq!(tuner.fastest(1, &key), None);
}

#[test]
fn an_unknown_remembered_index_is_benchmarked_again() {
    let mut tuner = Autotuner::new();
    let key = conv_key(4);
    tuner.register(0, &key, 7);
    assert_eq!(tuner.fastest(0, &key), Some(7));
    assert_eq!(tuner.decide(0, &key, 2), TuneDecision::Benchmark);
    let AutotuneKey::Conv2d(inner) = key else { unreachable!() };
    assert!(matches!(autotune_key(&tuner, 0, &inner), Ok(Tuning::Benchmark { .. })));
    tuner.register(0, &key, 1);
    assert_eq!(autotune_key(&tuner, 0, &inner), Ok(Tuning::Run { kernel: ConvKernel::Gemm }));
    tuner.register(0, &key, 0);
    assert_eq!(autotune_key(&tuner, 0, &inner), Ok(Tuning::Run { kernel: ConvKernel::Direct }));
}

#[test]
fn autotuning_refuses_sizes_above_the_limit() {
    let tuner = Autotuner::new();
    assert_eq!(
        conv2d_autotune(&tuner, 0, [ANCHOR_LIMIT + 1, 3, 32, 32], [8, 3, 3, 3], true, &options()),
        Err(ConvError::DimensionTooLarge)
    );
}

#[test]
fn autotuning_refuses_a_key_without_groups() {
    let tuner = Autotuner::new();
    let options = ConvOptions::new([1, 1], [0, 0], [1, 1], 0);
    assert_eq!(
        conv2d_autotune(&tuner, 0, [1, 3, 32, 32], [8, 3, 3, 3], true, &options),
        Err(ConvError::InvalidOptions)
    );
}

#[test]
fn anchored_values_are_near_the_size() {
    for x in (1..5000usize).chain([65_535, 65_537, 1 << 21, (1 << 21) + 1, (1 << 24) + 1, ANCHOR_LIMIT - 1]) {
        let anchored = anchor_dim(x).unwrap();
        assert!(x <= 4 * anchored, "{x} -> {anchored}");
        assert!(anchored <= 8 * x, "{x} -> {anchored}");
    }
}

#[test]
fn each_size_is_anchored_into_its_own_field() {
    let options = ConvOptions::new([1, 1], [0, 0], [1, 1], 1);
    let AutotuneKey::Conv2d(key) = create_key([1, 40, 300, 5000], [70_000, 40, 3, 3], false, &options).unwrap()
    else {
        panic!("a convolution has a convolution key")
    };
    assert_eq!(
        (key.batch_size, key.in_channels, key.height, key.width, key.out_channels),
        (1, 64, 512, 8192, 131_072)
    );
}

#[test]
fn transpose_key_holds_the_output_channels() {
    let options = ConvTransposeOptions::new([1, 1], [0, 0], [0, 0], [1, 1], 4);
    let key = |per_group: usize| {
        conv_engine::tune::transpose2d::create_key([1, 8, 16, 16], [8, per_group, 3, 3], false, &options)
            .unwrap()
    };
    let AutotuneKey::ConvTranspose2d(small) = key(2) else { panic!("a transposed key") };
    // 8 input channels; 2 output channels in each of 4 groups
    assert_eq!((small.in_channels, small.out_channels), (8, 8));
    let AutotuneKey::ConvTranspose2d(large) = key(40) else { panic!("a transposed key") };
    // 160 output channels are anchored to 256
    assert_eq!((large.in_channels, large.out_channels), (8, 256));
    // calls that differ only in their output channels do not share a key
    assert!(!key(2).same(&key(40)));
    // but calls in the same bucket of output channels do
    assert!(key(40).same(&key(50)));
}

#[test]
fn transpose_key_refuses_too_many_output_channels() {
    let options = ConvTransposeOptions::new([1, 1], [0, 0], [0, 0], [1, 1], 4);
    let create = conv_engine::tune::transpose2d::create_key;
    assert_eq!(
        create([1, 8, 16, 16], [8, ANCHOR_LIMIT / 4 + 1, 3, 3], false, &options),
        Err(ConvError::DimensionTooLarge)
    );
    assert_eq!(
        create([1, 8, 16, 16], [8, usize::MAX, 3, 3], false, &options),
        Err(ConvError::DimensionTooLarge)
    );
    assert!(create([1, 8, 16, 16], [8, ANCHOR_LIMIT / 4, 3, 3], false, &options).is_ok());
    // the first dimension of the weights is not anchored
    assert!(create([1, 8, 16, 16], [usize::MAX, 2, 3, 3], false, &options).is_ok());
}

#[test]
fn benchmark_shapes_are_a_valid_convolution() {
    let key = Conv2dAutotuneKey::new([3, 3], [1, 1], [1, 1], [1, 1], 4, 7, 30, 20, 20, 3, true).unwrap();
    assert_eq!((key.in_channels, key.out_channels), (8, 32));
    let inputs = test_inputs(&key).unwrap();
    let options = ConvOptions::new(key.stride, key.padding, key.dilation, key.groups);
    assert_eq!(conv2d_shape(inputs.input, inputs.weights, inputs.bias, &options), Ok([4, 32, 32, 32]));
}

#[test]
fn transpose_benchmark_shapes_are_a_valid_transposed_convolution() {
    // unequal channel counts: 8 in, 32 out
    let key = ConvTranspose2dAutotuneKey::new(
        [3, 3], [1, 1], [1, 1], [0, 0], [1, 1], 4, 7, 30, 20, 20, 3, true,
    )
    .unwrap();
    assert_eq!((key.in_channels, key.out_channels), (8, 32));
    let inputs = test_inputs_transpose(&key).unwrap();
    assert_eq!(inputs, Inputs { input: [4, 8, 32, 32], weights: [8, 8, 3, 3], bias: Some(32) });
    let options =
        ConvTransposeOptions::new(key.stride, key.padding, key.padding_out, key.dilation, key.groups);
    assert_eq!(
        conv_transpose2d_shape(inputs.input, inputs.weights, inputs.bias, &options),
        Ok([4, 32, 32, 32])
    );
    assert!(conv_engine::conv_transpose::conv_transpose2d_col2im(
        inputs.input,
        inputs.weights,
        inputs.bias,
        &options
    )
    .is_ok());
}
