use conv_engine::col2im::{
    col2im, col2im_image, col2im_kernel, col2im_taps, col_range, Col2ImArgs,
};
use conv_engine::launch::{CubeCount, CubeDim, LaunchError};
use conv_engine::options::{ConvError, ConvTransposeOptions};
use conv_engine::shape::conv_transpose_output_size;

fn args(
    batch: u32,
    channels: u32,
    im: (u32, u32),
    grid: (u32, u32),
    kernel: (u32, u32),
    pad: (i32, i32),
    dilation: (u32, u32),
    stride: (u32, u32),
) -> Col2ImArgs {
    Col2ImArgs {
        batch_size: batch,
        im_channels: channels,
        im_height: im.0,
        im_width: im.1,
        out_h: grid.0,
        out_w: grid.1,
        kernel_h: kernel.0,
        kernel_w: kernel.1,
        pad_h: pad.0,
        pad_w: pad.1,
        dilation_h: dilation.0,
        dilation_w: dilation.1,
        stride_h: stride.0,
        stride_w: stride.1,
    }
}

fn columns_len(a: &Col2ImArgs) -> usize {
    (a.im_channels * a.kernel_h * a.kernel_w * a.batch_size * a.out_h * a.out_w) as usize
}

fn image_len(a: &Col2ImArgs) -> usize {
    (a.batch_size * a.im_channels * a.im_height * a.im_width) as usize
}

/// Scatters every entry of the column buffer onto the image element it lands on.
fn naive_scatter(columns: &[i64], a: &Col2ImArgs) -> Vec<i128> {
    let mut image = vec![0i128; image_len(a)];
    let cols = (a.batch_size * a.out_h * a.out_w) as usize;
    for c in 0..a.im_channels as i64 {
        for ky in 0..a.kernel_h as i64 {
            for kx in 0..a.kernel_w as i64 {
                for b in 0..a.batch_size as i64 {
                    for cy in 0..a.out_h as i64 {
                        for cx in 0..a.out_w as i64 {
                            let y = cy * a.stride_h as i64 + ky * a.dilation_h as i64 - a.pad_h as i64;
                            let x = cx * a.stride_w as i64 + kx * a.dilation_w as i64 - a.pad_w as i64;
                            if y < 0 || y >= a.im_height as i64 || x < 0 || x >= a.im_width as i64 {
                                continue;
                            }
                            let row = ((c * a.kernel_h as i64 + ky) * a.kernel_w as i64 + kx) as usize;
                            let col = ((b * a.out_h as i64 + cy) * a.out_w as i64 + cx) as usize;
                            let pos = (((b * a.im_channels as i64 + c) * a.im_height as i64 + y)
                                * a.im_width as i64 + x) as usize;
                            image[pos] += columns[row * cols + col] as i128;
                        }
                    }
                }
            }
        }
    }
    image
}

/// Builds the column buffer of an image: each entry holds the image element it
/// lands on, or zero where it lands in the padding.
fn unfold(image: &[i64], a: &Col2ImArgs) -> Vec<i64> {
    let mut columns = vec![0i64; columns_len(a)];
    let cols = (a.batch_size * a.out_h * a.out_w) as usize;
    for c in 0..a.im_channels as i64 {
        for ky in 0..a.kernel_h as i64 {
            for kx in 0..a.kernel_w as i64 {
                for b in 0..a.batch_size as i64 {
                    for cy in 0..a.out_h as i64 {
                        for cx in 0..a.out_w as i64 {
                            let y = cy * a.stride_h as i64 + ky * a.dilation_h as i64 - a.pad_h as i64;
                            let x = cx * a.stride_w as i64 + kx * a.dilation_w as i64 - a.pad_w as i64;
                            if y < 0 || y >= a.im_height as i64 || x < 0 || x >= a.im_width as i64 {
                                continue;
                            }
                            let row = ((c * a.kernel_h as i64 + ky) * a.kernel_w as i64 + kx) as usize;
                            let col = ((b * a.out_h as i64 + cy) * a.out_w as i64 + cx) as usize;
                            let pos = (((b * a.im_channels as i64 + c) * a.im_height as i64 + y)
                                * a.im_width as i64 + x) as usize;
                            columns[row * cols + col] = image[pos];
                        }
                    }
                }
            }
        }
    }
    columns
}

fn numbered(len: usize) -> Vec<i64> {
    (0..len).map(|i| (i as i64 * 7919) % 1009 - 500).collect()
}

fn check_against_naive(a: &Col2ImArgs) {
    let columns = numbered(columns_len(a));
    assert_eq!(col2im_image(&columns, a), naive_scatter(&columns, a));
}

#[test]
fn col_range_of_a_3_tap_kernel_with_stride_1() {
    // extent 3: grid positions eff - 2 ..= eff, clipped to the grid of 4
    assert_eq!(col_range(0, 3, 1, 1, 4), (0, 1));
    assert_eq!(col_range(1, 3, 1, 1, 4), (0, 2));
    assert_eq!(col_range(2, 3, 1, 1, 4), (0, 3));
    assert_eq!(col_range(3, 3, 1, 1, 4), (1, 4));
    assert_eq!(col_range(4, 3, 1, 1, 4), (2, 4));
    assert_eq!(col_range(5, 3, 1, 1, 4), (3, 4));
}

#[test]
fn col_range_is_empty_outside_every_window() {
    assert_eq!(col_range(-1, 3, 1, 1, 4), (0, 0));
    assert_eq!(col_range(i64::MIN, 3, 1, 1, 4), (0, 0));
    let (start, end) = col_range(6, 3, 1, 1, 4);
    assert_eq!(start, end);
    let (start, end) = col_range(1000, 3, 1, 1, 4);
    assert_eq!(start, end);
    assert_eq!(col_range(3, 3, 1, 1, 0), (0, 0));
}

#[test]
fn col_range_with_stride_and_dilation() {
    // extent (3 - 1) * 2 + 1 = 5, stride 2: positions c with 0 <= eff - 2c < 5
    assert_eq!(col_range(0, 3, 2, 2, 8), (0, 1));
    assert_eq!(col_range(4, 3, 2, 2, 8), (0, 3));
    assert_eq!(col_range(5, 3, 2, 2, 8), (1, 3));
    assert_eq!(col_range(6, 3, 2, 2, 8), (1, 4));
    assert_eq!(col_range(7, 3, 2, 2, 8), (2, 4));
}

#[test]
fn col_range_never_leaves_the_grid() {
    for out in 0..6u32 {
        for eff in -3..40i64 {
            for kernel in 1..4u32 {
                for dilation in 1..3u32 {
                    for stride in 1..4u32 {
                        let (start, end) = col_range(eff, kernel, dilation, stride, out);
                        assert!(start <= end && end <= out);
                        for col in 0..out as i64 {
                            let offset = eff - col * stride as i64;
                            let covered =
                                offset >= 0 && offset < (kernel as i64 - 1) * dilation as i64 + 1;
                            assert_eq!(start as i64 <= col && col < end as i64, covered);
                        }
                    }
                }
            }
        }
    }
}

#[test]
fn col_range_with_extreme_values() {
    assert_eq!(col_range(i64::MAX, 1, 1, 1, u32::MAX), (u32::MAX, u32::MAX));
    assert_eq!(col_range(0, u32::MAX, u32::MAX, u32::MAX, u32::MAX), (0, 1));
    // the extent of this kernel is larger than any coordinate
    assert_eq!(col_range(i64::MAX, u32::MAX, u32::MAX, 1, u32::MAX), (0, u32::MAX));
}

#[test]
fn taps_of_a_corner_pixel() {
    // 3x3 kernel, stride 1, padding 1 on a 4x4 image and grid: the element at
    // (0, 0) is reached from grid (0, 0) by tap (1, 1), (0, 1) by (1, 0),
    // (1, 0) by (0, 1) and (1, 1) by (0, 0).
    let a = args(1, 1, (4, 4), (4, 4), (3, 3), (1, 1), (1, 1), (1, 1));
    let taps = col2im_taps(&a, 0);
    let entry = |ky: usize, kx: usize, cy: usize, cx: usize| (ky * 3 + kx) * 16 + cy * 4 + cx;
    assert_eq!(taps, vec![entry(1, 1, 0, 0), entry(1, 0, 0, 1), entry(0, 1, 1, 0), entry(0, 0, 1, 1)]);
}

#[test]
fn taps_past_the_image_are_empty() {
    let a = args(1, 1, (4, 4), (4, 4), (3, 3), (1, 1), (1, 1), (1, 1));
    assert_eq!(col2im_taps(&a, 15).len(), 4);
    assert!(col2im_taps(&a, 16).is_empty());
    assert!(col2im_taps(&a, 17).is_empty());
    assert!(col2im_taps(&a, usize::MAX).is_empty());
}

#[test]
fn kernel_past_the_image_does_nothing() {
    let a = args(1, 1, (4, 4), (4, 4), (3, 3), (1, 1), (1, 1), (1, 1));
    let columns = numbered(columns_len(&a));
    assert!(col2im_kernel(&columns, &a, 15).is_some());
    assert_eq!(col2im_kernel(&columns, &a, 16), None);
    assert_eq!(col2im_kernel(&columns, &a, usize::MAX), None);
}

#[test]
fn same_padding_keeps_the_size_and_stays_in_the_grid() {
    assert_eq!(conv_transpose_output_size(3, 1, 1, 0, 1, 4), Some(4));
    let a = args(1, 1, (4, 4), (4, 4), (3, 3), (1, 1), (1, 1), (1, 1));
    for y in 0..4i64 {
        let (start, end) = col_range(y + 1, 3, 1, 1, 4);
        assert!(start < end && end <= 4);
    }
    let len = columns_len(&a);
    for pos in 0..16 {
        let taps = col2im_taps(&a, pos);
        let (y, x) = (pos / 4, pos % 4);
        let rows = if y == 0 || y == 3 { 2 } else { 3 };
        let cols = if x == 0 || x == 3 { 2 } else { 3 };
        assert_eq!(taps.len(), rows * cols);
        for &q in &taps {
            assert!(q < len);
            let (cy, cx) = ((q % 16) / 4, q % 4);
            assert!(cy < 4 && cx < 4);
        }
    }
    check_against_naive(&a);
}

#[test]
fn sum_of_ones_counts_the_taps() {
    let a = args(1, 1, (4, 4), (4, 4), (3, 3), (1, 1), (1, 1), (1, 1));
    let columns = vec![1i64; columns_len(&a)];
    let image = col2im_image(&columns, &a);
    assert_eq!(image, vec![4, 6, 6, 4, 6, 9, 9, 6, 6, 9, 9, 6, 4, 6, 6, 4]);
}

#[test]
fn dilation_skips_offsets_off_the_lattice() {
    // kernel 3x3, dilation 2, stride 1, no padding, grid 3x3: image 7x7.
    assert_eq!(conv_transpose_output_size(3, 1, 0, 0, 2, 3), Some(7));
    let a = args(1, 1, (7, 7), (3, 3), (3, 3), (0, 0), (2, 2), (1, 1));
    // Element (1, 0): grid rows 0 and 1 cover it, but only row 1 at offset 0 is
    // on the lattice; grid column 0 at offset 0.
    let taps = col2im_taps(&a, 7);
    assert_eq!(taps, vec![0 * 9 + 1 * 3 + 0]);
    // Element (3, 3): rows 1 (offset 2) and 3 is outside the grid; row 3 - 4 < 0.
    let columns = vec![1i64; columns_len(&a)];
    let image = col2im_image(&columns, &a);
    assert_eq!(image, naive_scatter(&columns, &a));
    // Only offsets 0, 2 and 4 count: element (1, 1) gets 1, element (2, 2) gets 4.
    assert_eq!(image[8], 1);
    assert_eq!(image[16], 4);
    check_against_naive(&a);
}

#[test]
fn dilation_with_stride_against_the_naive_scatter() {
    let h = conv_transpose_output_size(3, 2, 1, 1, 2, 4).unwrap() as u32;
    let w = conv_transpose_output_size(2, 3, 0, 0, 2, 3).unwrap() as u32;
    let a = args(2, 3, (h, w), (4, 3), (3, 2), (1, 0), (2, 2), (2, 3));
    check_against_naive(&a);
}

#[test]
fn every_small_geometry_agrees_with_the_naive_scatter() {
    for kernel in 1..4u32 {
        for stride in 1..4u32 {
            for dilation in 1..3u32 {
                for pad in 0..3usize {
                    for grid in 1..4u32 {
                        let size = conv_transpose_output_size(
                            kernel as usize,
                            stride as usize,
                            pad,
                            0,
                            dilation as usize,
                            grid as usize,
                        );
                        let Some(size) = size else { continue };
                        let a = args(
                            2,
                            2,
                            (size as u32, size as u32),
                            (grid, grid),
                            (kernel, kernel),
                            (pad as i32, pad as i32),
                            (dilation, dilation),
                            (stride, stride),
                        );
                        check_against_naive(&a);
                    }
                }
            }
        }
    }
}

#[test]
fn negative_padding_shifts_the_image() {
    let a = args(1, 2, (5, 6), (3, 3), (2, 2), (-1, -2), (1, 1), (1, 2));
    check_against_naive(&a);
}

#[test]
fn image_larger_than_the_windows_reach_is_zero_there() {
    let a = args(1, 1, (10, 10), (2, 2), (2, 2), (0, 0), (1, 1), (1, 1));
    let columns = vec![1i64; columns_len(&a)];
    let image = col2im_image(&columns, &a);
    assert_eq!(image[99], 0);
    assert_eq!(image[0], 1);
    assert_eq!(image[11], 4);
    check_against_naive(&a);
}

#[test]
fn empty_image_and_empty_grid() {
    let a = args(0, 1, (4, 4), (4, 4), (3, 3), (1, 1), (1, 1), (1, 1));
    assert!(col2im_image(&Vec::new(), &a).is_empty());
    let a = args(1, 1, (4, 4), (0, 4), (3, 3), (1, 1), (1, 1), (1, 1));
    assert_eq!(col2im_image(&Vec::new(), &a), vec![0i128; 16]);
}

#[test]
fn folding_an_unfolded_image_gives_it_back_without_overlap() {
    // kernel 2x2 with stride 2: every element is under exactly one window.
    let a = args(2, 3, (6, 4), (3, 2), (2, 2), (0, 0), (1, 1), (2, 2));
    let image = numbered(image_len(&a));
    let columns = unfold(&image, &a);
    let folded = col2im_image(&columns, &a);
    let expected: Vec<i128> = image.iter().map(|&v| v as i128).collect();
    assert_eq!(folded, expected);
}

#[test]
fn folding_an_unfolded_image_counts_the_overlap() {
    let a = args(1, 1, (4, 4), (4, 4), (3, 3), (1, 1), (1, 1), (1, 1));
    let image = numbered(16);
    let columns = unfold(&image, &a);
    let folded = col2im_image(&columns, &a);
    for pos in 0..16 {
        let count = col2im_taps(&a, pos).len() as i128;
        assert_eq!(folded[pos], count * image[pos] as i128);
    }
    assert_eq!(folded[5], 9 * image[5] as i128);
}

#[test]
fn sums_of_extreme_values_are_exact() {
    let a = args(1, 1, (4, 4), (4, 4), (3, 3), (1, 1), (1, 1), (1, 1));
    let columns = vec![i64::MAX; columns_len(&a)];
    assert_eq!(col2im_kernel(&columns, &a, 5), Some(9 * i64::MAX as i128));
    let columns = vec![i64::MIN; columns_len(&a)];
    assert_eq!(col2im_kernel(&columns, &a, 5), Some(9 * i64::MIN as i128));
}

#[test]
fn launch_plan_carries_the_geometry() {
    let options = ConvTransposeOptions::new([2, 3], [1, 0], [0, 0], [1, 2], 1);
    let launch = col2im([2, 3, 9, 8], 3, 2, 5, 4, &options).unwrap();
    assert_eq!(
        launch.args,
        Col2ImArgs {
            batch_size: 2,
            im_channels: 3,
            im_height: 9,
            im_width: 8,
            out_h: 5,
            out_w: 4,
            kernel_h: 3,
            kernel_w: 2,
            pad_h: 1,
            pad_w: 0,
            dilation_h: 1,
            dilation_w: 2,
            stride_h: 2,
            stride_w: 3,
        }
    );
    assert_eq!(launch.num_elems, 432);
    assert_eq!(launch.grid.cube_dim, CubeDim { x: 16, y: 16, z: 1 });
    assert_eq!(launch.grid.cube_count, CubeCount { x: 2, y: 1, z: 1 });
}

#[test]
fn launch_plan_refuses_what_does_not_fit() {
    let options = ConvTransposeOptions::new([1, 1], [0, 0], [0, 0], [1, 1], 1);
    let big = u32::MAX as usize + 1;
    assert_eq!(col2im([1, 1, big, 1], 1, 1, 1, 1, &options), Err(ConvError::DimensionTooLarge));
    assert_eq!(col2im([1, 1, 1, 1], big, 1, 1, 1, &options), Err(ConvError::DimensionTooLarge));
    let padded = ConvTransposeOptions::new([1, 1], [i32::MAX as usize + 1, 0], [0, 0], [1, 1], 1);
    assert_eq!(col2im([1, 1, 1, 1], 1, 1, 1, 1, &padded), Err(ConvError::DimensionTooLarge));
    let most = u32::MAX as usize;
    assert_eq!(col2im([most, most, most, most], 1, 1, 1, 1, &options), Err(ConvError::SizeOutOfRange));
}

#[test]
fn launch_plan_refuses_a_grid_that_is_too_small() {
    let options = ConvTransposeOptions::new([1, 1], [0, 0], [0, 0], [1, 1], 1);
    assert_eq!(
        col2im([1, 1, 1, (1 << 24) + 1], 1, 1, 1, 1, &options),
        Err(ConvError::Launch(LaunchError::GridTooSmall))
    );
}
