use conv_engine::col2im::{col2im_image, col2im_taps, Col2ImArgs};
use conv_engine::unfold::{unfold, unfold_source};

fn geometry(kernel: u32, stride: u32, pad: i32, dilation: u32, grid: u32, size: u32) -> Col2ImArgs {
    Col2ImArgs {
        batch_size: 2,
        im_channels: 3,
        im_height: size,
        im_width: size,
        out_h: grid,
        out_w: grid,
        kernel_h: kernel,
        kernel_w: kernel,
        pad_h: pad,
        pad_w: pad,
        dilation_h: dilation,
        dilation_w: dilation,
        stride_h: stride,
        stride_w: stride,
    }
}

fn lengths(a: &Col2ImArgs) -> (usize, usize) {
    let image = a.batch_size * a.im_channels * a.im_height * a.im_width;
    let columns = a.im_channels * a.kernel_h * a.kernel_w * a.batch_size * a.out_h * a.out_w;
    (image as usize, columns as usize)
}

fn values(len: usize) -> Vec<i64> {
    (0..len).map(|i| (i as i64 * 104_729) % 2003 - 1000).collect()
}

#[test]
fn source_of_an_entry() {
    // one batch, one channel, 3x3 kernel, stride 1, padding 1, 4x4 image and grid
    let mut a = geometry(3, 1, 1, 1, 4, 4);
    a.batch_size = 1;
    a.im_channels = 1;
    let entry = |ky: usize, kx: usize, cy: usize, cx: usize| (ky * 3 + kx) * 16 + cy * 4 + cx;
    // tap (1, 1) at grid (0, 0) lands on element (0, 0)
    assert_eq!(unfold_source(&a, entry(1, 1, 0, 0)), Some(0));
    // tap (0, 0) at grid (0, 0) lands at (-1, -1), in the padding
    assert_eq!(unfold_source(&a, entry(0, 0, 0, 0)), None);
    // tap (2, 0) at grid (2, 3) lands on element (3, 2)
    assert_eq!(unfold_source(&a, entry(2, 0, 2, 3)), Some(14));
    // tap (2, 2) at grid (3, 3) lands at (4, 4), past the image
    assert_eq!(unfold_source(&a, entry(2, 2, 3, 3)), None);
}

#[test]
fn source_with_stride_and_dilation() {
    let mut a = geometry(2, 3, 0, 2, 2, 6);
    a.batch_size = 1;
    a.im_channels = 2;
    // channel 1, tap (1, 0), grid (1, 1): row 1 * 3 + 1 * 2 = 5, column 1 * 3 + 0 = 3
    let entry = ((1 * 2 + 1) * 2 + 0) * 4 + 1 * 2 + 1;
    assert_eq!(unfold_source(&a, entry), Some(36 + 5 * 6 + 3));
}

#[test]
fn entries_and_sources_are_the_same_pairs() {
    for (kernel, stride, pad, dilation, grid, size) in
        [(3, 1, 1, 1, 4, 4), (2, 2, 0, 1, 3, 6), (3, 2, 1, 2, 3, 8), (2, 3, 2, 2, 4, 8), (3, 1, 0, 1, 2, 9)]
    {
        let a = geometry(kernel, stride, pad, dilation, grid, size);
        let (image_len, columns_len) = lengths(&a);
        let mut from_taps = Vec::new();
        for pos in 0..image_len {
            let taps = col2im_taps(&a, pos);
            let mut sorted = taps.clone();
            sorted.sort_unstable();
            sorted.dedup();
            assert_eq!(sorted.len(), taps.len(), "no entry is summed twice");
            from_taps.extend(taps.into_iter().map(|q| (q, pos)));
        }
        let mut from_sources: Vec<(usize, usize)> =
            (0..columns_len).filter_map(|q| unfold_source(&a, q).map(|pos| (q, pos))).collect();
        from_taps.sort_unstable();
        from_sources.sort_unstable();
        assert_eq!(from_taps, from_sources);
    }
}

#[test]
fn folding_inverts_unfolding_where_windows_do_not_overlap() {
    let a = geometry(2, 2, 0, 1, 3, 6);
    let (image_len, _) = lengths(&a);
    let image = values(image_len);
    let folded = col2im_image(&unfold(&image, &a), &a);
    assert_eq!(folded, image.iter().map(|&v| v as i128).collect::<Vec<_>>());
}

#[test]
fn folding_an_unfolding_multiplies_by_the_coverage() {
    let a = geometry(3, 1, 1, 1, 4, 4);
    let (image_len, _) = lengths(&a);
    let image = values(image_len);
    let folded = col2im_image(&unfold(&image, &a), &a);
    for pos in 0..image_len {
        let coverage = col2im_taps(&a, pos).len() as i128;
        assert_eq!(folded[pos], coverage * image[pos] as i128);
    }
    // an inner element is under all nine taps
    assert_eq!(folded[5], 9 * image[5] as i128);
    // a corner only under four
    assert_eq!(folded[0], 4 * image[0] as i128);
}

#[test]
fn folding_is_the_transpose_of_unfolding() {
    // <fold(c), x> = <c, unfold(x)> for any column buffer c and image x
    let a = geometry(3, 2, 1, 2, 3, 8);
    let (image_len, columns_len) = lengths(&a);
    let image = values(image_len);
    let columns: Vec<i64> = values(columns_len).into_iter().rev().collect();
    let folded = col2im_image(&columns, &a);
    let unfolded = unfold(&image, &a);
    let left: i128 = folded.iter().zip(&image).map(|(&f, &x)| f * x as i128).sum();
    let right: i128 = columns.iter().zip(&unfolded).map(|(&c, &u)| c as i128 * u as i128).sum();
    assert_eq!(left, right);
}

#[test]
fn unfolding_an_empty_grid() {
    let a = geometry(3, 1, 1, 1, 0, 4);
    let (image_len, _) = lengths(&a);
    assert!(unfold(&values(image_len), &a).is_empty());
}
