//! Transposed convolution by matrix multiplication: the shapes of every step
//! from the input and the weight to the image.
//!
//! The weight of a transposed convolution has the shape (input channels, image
//! channels per group, kernel height, kernel width).  For each group, the
//! transposed weight matrix times the input matrix gives that group's rows of the
//! column buffer; col2im folds the buffer into the image, and the bias is added
//! last.

use vstd::prelude::*;
use crate::arith::{
    lemma_divide_twice, lemma_product_sign, lemma_quotient_bound, lemma_quotient_range,
};
use crate::col2im::{col2im, spec_col2im, Col2ImLaunch};
use crate::options::{ConvError, ConvTransposeOptions};
use crate::shape::{
    conv_transpose_output_size, spec_conv_transpose_output_size, transpose_output_size_defined,
};

verus! {

/// The plan of a transposed convolution by matrix multiplication.
#[derive(Clone, Copy, Debug, PartialEq, Eq, Structural, Hash)]
pub struct ConvTranspose2dGemm {
    pub batch_size: usize,
    pub input_channels: usize,
    pub input_h: usize,
    pub input_w: usize,
    pub kernel_h: usize,
    pub kernel_w: usize,
    pub groups: usize,
    /// Input channels of one group.
    pub input_ch_per_group: usize,
    /// Image channels of one group.
    pub im_ch_per_group: usize,
    pub im_channels: usize,
    pub im_h: usize,
    pub im_w: usize,
    /// Rows of one group's part of the column buffer.
    pub col_shape_0: usize,
    /// Columns of the column buffer.
    pub col_shape_1: usize,
    /// Rows of the whole column buffer, all groups together.
    pub col_rows: usize,
    /// Number of elements of one image channel over all batches.
    pub channel_len: usize,
    pub has_bias: bool,
    /// The launch of the scatter kernel that folds the column buffer.
    pub launch: Col2ImLaunch,
}

/// Image height of a transposed convolution.
pub open spec fn spec_im_h(
    input: [usize; 4],
    weight: [usize; 4],
    options: ConvTransposeOptions,
) -> int {
    spec_conv_transpose_output_size(
        weight[2] as int,
        options.stride[0] as int,
        options.padding[0] as int,
        options.padding_out[0] as int,
        options.dilation[0] as int,
        input[2] as int,
    )
}

/// Image width of a transposed convolution.
pub open spec fn spec_im_w(
    input: [usize; 4],
    weight: [usize; 4],
    options: ConvTransposeOptions,
) -> int {
    spec_conv_transpose_output_size(
        weight[3] as int,
        options.stride[1] as int,
        options.padding[1] as int,
        options.padding_out[1] as int,
        options.dilation[1] as int,
        input[3] as int,
    )
}

/// The image size is defined along both axes, and the number of image channels,
/// the sides of the column buffer, the buffer itself and the row of ones that
/// spreads the bias can all be addressed.
pub open spec fn gemm_sizes_defined(
    input: [usize; 4],
    weight: [usize; 4],
    options: ConvTransposeOptions,
) -> bool {
    &&& transpose_output_size_defined(
        weight[2],
        options.stride[0],
        options.padding[0],
        options.padding_out[0],
        options.dilation[0],
        input[2],
    )
    &&& transpose_output_size_defined(
        weight[3],
        options.stride[1],
        options.padding[1],
        options.padding_out[1],
        options.dilation[1],
        input[3],
    )
    &&& weight[1] * options.groups <= usize::MAX
    &&& weight[1] * weight[2] * weight[3] <= usize::MAX
    &&& weight[1] * weight[2] * weight[3] * options.groups <= usize::MAX
    &&& input[0] * input[2] * input[3] <= usize::MAX
    &&& weight[1] * weight[2] * weight[3] * options.groups * (input[0] * input[2] * input[3])
        <= usize::MAX
    &&& input[0] * spec_im_h(input, weight, options) * spec_im_w(input, weight, options)
        <= usize::MAX
}

/// The image shape of a transposed convolution whose sizes are defined.
pub open spec fn spec_image_shape(
    input: [usize; 4],
    weight: [usize; 4],
    options: ConvTransposeOptions,
) -> [usize; 4] {
    [
        input[0],
        (weight[1] * options.groups) as usize,
        spec_im_h(input, weight, options) as usize,
        spec_im_w(input, weight, options) as usize,
    ]
}

/// What [`conv_transpose2d_col2im`] returns for an input of shape (batch,
/// channels, height, width), a weight of shape (input channels, image channels
/// per group, kernel height, kernel width) and a bias of the given length.
pub open spec fn spec_conv_transpose2d_col2im(
    input: [usize; 4],
    weight: [usize; 4],
    bias: Option<usize>,
    options: ConvTransposeOptions,
) -> Result<ConvTranspose2dGemm, ConvError> {
    if !options.valid() {
        Err(ConvError::InvalidOptions)
    } else if weight[2] == 0 || weight[3] == 0 {
        Err(ConvError::EmptyKernel)
    } else if input[1] != weight[0] {
        Err(ConvError::ChannelMismatch)
    } else if weight[0] % options.groups != 0 {
        Err(ConvError::ChannelsNotDivisible)
    } else if bias is Some && bias->0 != weight[1] * options.groups {
        Err(ConvError::BiasMismatch)
    } else if !gemm_sizes_defined(input, weight, options) {
        Err(ConvError::SizeOutOfRange)
    } else {
        match spec_col2im(
            spec_image_shape(input, weight, options),
            weight[2],
            weight[3],
            input[2],
            input[3],
            options,
        ) {
            Err(e) => Err(e),
            Ok(launch) => Ok(
                ConvTranspose2dGemm {
                    batch_size: input[0],
                    input_channels: weight[0],
                    input_h: input[2],
                    input_w: input[3],
                    kernel_h: weight[2],
                    kernel_w: weight[3],
                    groups: options.groups,
                    input_ch_per_group: weight[0] / options.groups,
                    im_ch_per_group: weight[1],
                    im_channels: (weight[1] * options.groups) as usize,
                    im_h: spec_im_h(input, weight, options) as usize,
                    im_w: spec_im_w(input, weight, options) as usize,
                    col_shape_0: (weight[1] * weight[2] * weight[3]) as usize,
                    col_shape_1: (input[0] * input[2] * input[3]) as usize,
                    col_rows: (weight[1] * weight[2] * weight[3] * options.groups) as usize,
                    channel_len: (input[0] * spec_im_h(input, weight, options) * spec_im_w(
                        input,
                        weight,
                        options,
                    )) as usize,
                    has_bias: bias is Some,
                    launch,
                },
            ),
        }
    }
}

/// Product of three sizes, or `None` where it does not fit in `usize`.
fn product3(a: usize, b: usize, c: usize) -> (p: Option<usize>)
    ensures
        a * b * c <= usize::MAX ==> p == Some((a * b * c) as usize),
        a * b * c > usize::MAX ==> p is None,
{
    let dims: [usize; 3] = [a, b, c];
    proof {
        let d = dims@;
        reveal_with_fuel(crate::shape::product, 4);
        assert(d.drop_last().drop_last().drop_last().len() == 0);
        assert(1 * (a as int) == a) by (nonlinear_arith);
        assert(crate::shape::product(d) == ((1 * a) * b) * c);
    }
    crate::shape::num_elements(dims.as_slice())
}

/// Plans a transposed convolution by matrix multiplication for an input of
/// shape (batch, channels, height, width), a weight of shape (input channels,
/// image channels per group, kernel height, kernel width) and, where there is
/// one, a bias of the given length.  An invalid configuration is reported before
/// any tensor is touched.
pub fn conv_transpose2d_col2im(
    input: [usize; 4],
    weight: [usize; 4],
    bias: Option<usize>,
    options: &ConvTransposeOptions,
) -> (plan: Result<ConvTranspose2dGemm, ConvError>)
    ensures
        plan == spec_conv_transpose2d_col2im(input, weight, bias, *options),
        plan matches Ok(p) ==> p.wf(),
{
    if !options.is_valid() {
        return Err(ConvError::InvalidOptions);
    }
    let batch_size = input[0];
    let input_h = input[2];
    let input_w = input[3];
    let input_channels = weight[0];
    let im_ch_per_group = weight[1];
    let kernel_h = weight[2];
    let kernel_w = weight[3];
    let groups = options.groups;
    if kernel_h == 0 || kernel_w == 0 {
        return Err(ConvError::EmptyKernel);
    }
    if input[1] != input_channels {
        return Err(ConvError::ChannelMismatch);
    }
    if input_channels % groups != 0 {
        return Err(ConvError::ChannelsNotDivisible);
    }
    let input_ch_per_group = input_channels / groups;
    proof {
        vstd::arithmetic::div_mod::lemma_fundamental_div_mod(input_channels as int, groups as int);
    }
    let im_channels = im_ch_per_group.checked_mul(groups);
    match bias {
        Some(n) => {
            if im_channels != Some(n) {
                return Err(ConvError::BiasMismatch);
            }
        },
        None => {},
    }
    let im_h = conv_transpose_output_size(
        kernel_h,
        options.stride[0],
        options.padding[0],
        options.padding_out[0],
        options.dilation[0],
        input_h,
    );
    let im_w = conv_transpose_output_size(
        kernel_w,
        options.stride[1],
        options.padding[1],
        options.padding_out[1],
        options.dilation[1],
        input_w,
    );
    let (im_h, im_w, im_channels) = match (im_h, im_w, im_channels) {
        (Some(h), Some(w), Some(c)) => (h, w, c),
        _ => {
            return Err(ConvError::SizeOutOfRange);
        },
    };
    let col_shape_0 = product3(im_ch_per_group, kernel_h, kernel_w);
    let col_shape_1 = product3(batch_size, input_h, input_w);
    let ones = product3(batch_size, im_h, im_w);
    let (col_shape_0, col_shape_1, channel_len) = match (col_shape_0, col_shape_1, ones) {
        (Some(rows), Some(cols), Some(len)) => (rows, cols, len),
        _ => {
            return Err(ConvError::SizeOutOfRange);
        },
    };
    let col_rows = match col_shape_0.checked_mul(groups) {
        Some(rows) => rows,
        None => {
            return Err(ConvError::SizeOutOfRange);
        },
    };
    match col_rows.checked_mul(col_shape_1) {
        Some(_) => {},
        None => {
            return Err(ConvError::SizeOutOfRange);
        },
    }
    let im_shape: [usize; 4] = [batch_size, im_channels, im_h, im_w];
    assert(im_shape == spec_image_shape(input, weight, *options)) by {
        assert(im_shape =~= spec_image_shape(input, weight, *options));
    }
    match col2im(im_shape, kernel_h, kernel_w, input_h, input_w, options) {
        Err(e) => Err(e),
        Ok(launch) => Ok(
            ConvTranspose2dGemm {
                batch_size,
                input_channels,
                input_h,
                input_w,
                kernel_h,
                kernel_w,
                groups,
                input_ch_per_group,
                im_ch_per_group,
                im_channels,
                im_h,
                im_w,
                col_shape_0,
                col_shape_1,
                col_rows,
                channel_len,
                has_bias: bias.is_some(),
                launch,
            },
        ),
    }
}

impl ConvTranspose2dGemm {
    /// The sizes of the plan agree with each other and with the launch of the
    /// scatter kernel.
    pub open spec fn wf(self) -> bool {
        &&& self.groups >= 1
        &&& self.kernel_h >= 1
        &&& self.kernel_w >= 1
        &&& self.input_channels == self.groups * self.input_ch_per_group
        &&& self.im_channels == self.im_ch_per_group * self.groups
        &&& self.col_shape_0 == self.im_ch_per_group * self.kernel_h * self.kernel_w
        &&& self.col_shape_1 == self.batch_size * self.input_h * self.input_w
        &&& self.col_rows == self.col_shape_0 * self.groups
        &&& self.col_rows * self.col_shape_1 <= usize::MAX
        &&& self.channel_len == self.batch_size * self.im_h * self.im_w
        &&& self.launch.args.wf()
        &&& self.launch.args.batch_size == self.batch_size
        &&& self.launch.args.im_channels == self.im_channels
        &&& self.launch.args.im_height == self.im_h
        &&& self.launch.args.im_width == self.im_w
        &&& self.launch.args.out_h == self.input_h
        &&& self.launch.args.out_w == self.input_w
        &&& self.launch.args.kernel_h == self.kernel_h
        &&& self.launch.args.kernel_w == self.kernel_w
        &&& self.launch.num_elems == self.launch.args.image_len()
        &&& self.launch.grid.covers(self.launch.num_elems)
    }

    /// Every reshape of the plan keeps the number of elements, the matrices
    /// that are multiplied agree on their inner dimension, and the column buffer
    /// has the size that the scatter kernel reads.
    pub proof fn lemma_shapes_agree(self)
        requires
            self.wf(),
        ensures
            // the weight as one matrix per group
            self.input_channels * self.im_ch_per_group * self.kernel_h * self.kernel_w
                == self.groups * self.input_ch_per_group * self.col_shape_0,
            // the input, channels first, as one matrix per group
            self.input_channels * self.batch_size * self.input_h * self.input_w == self.groups
                * self.input_ch_per_group * self.col_shape_1,
            // all groups' rows together
            self.groups * self.col_shape_0 * self.col_shape_1 == (self.col_shape_0 * self.groups)
                * self.col_shape_1,
            // what the kernel reads
            self.launch.args.col_rows() == self.col_rows,
            self.launch.args.col_cols() == self.col_shape_1,
            self.launch.args.columns_len() == self.col_rows * self.col_shape_1,
            // the bias spread over the image, channels first
            self.im_channels * self.channel_len == self.im_channels * self.batch_size * self.im_h
                * self.im_w,
            self.im_channels * self.batch_size * self.im_h * self.im_w
                == self.launch.args.image_len(),
    {
        let g = self.groups as int;
        let icg = self.input_ch_per_group as int;
        let cpg = self.im_ch_per_group as int;
        let kh = self.kernel_h as int;
        let kw = self.kernel_w as int;
        let n = self.batch_size as int;
        let h = self.input_h as int;
        let w = self.input_w as int;
        let ih = self.im_h as int;
        let iw = self.im_w as int;
        assert((g * icg) * cpg * kh * kw == g * icg * (cpg * kh * kw)) by (nonlinear_arith);
        assert((g * icg) * n * h * w == g * icg * (n * h * w)) by (nonlinear_arith);
        assert(g * (cpg * kh * kw) * (n * h * w) == ((cpg * kh * kw) * g) * (n * h * w))
            by (nonlinear_arith);
        assert((cpg * g) * kh * kw == (cpg * kh * kw) * g) by (nonlinear_arith);
        assert((cpg * g) * (n * ih * iw) == (cpg * g) * n * ih * iw) by (nonlinear_arith);
        assert((cpg * g) * n * ih * iw == n * (cpg * g) * ih * iw) by (nonlinear_arith);
    }

    /// The groups are multiplied one by one; a single group needs no loop.
    pub fn grouped(&self) -> (b: bool)
        ensures
            b == (self.groups > 1),
    {
        self.groups > 1
    }

    /// Shape to which the weight is reshaped: one (input channels per group)
    /// by (rows) matrix per group, or a single matrix.
    pub fn weight_matrix_shape(&self) -> (shape: Vec<usize>)
        requires
            self.wf(),
        ensures
            self.groups > 1 ==> shape@ == seq![
                self.groups,
                self.input_ch_per_group,
                self.col_shape_0,
            ],
            self.groups == 1 ==> shape@ == seq![self.input_channels, self.col_shape_0],
    {
        if self.groups > 1 {
            vec![self.groups, self.input_ch_per_group, self.col_shape_0]
        } else {
            vec![self.input_channels, self.col_shape_0]
        }
    }

    /// Shape to which the input is reshaped after its batch and channel axes
    /// are swapped.
    pub fn input_matrix_shape(&self) -> (shape: Vec<usize>)
        requires
            self.wf(),
        ensures
            self.groups > 1 ==> shape@ == seq![
                self.groups,
                self.input_ch_per_group,
                self.col_shape_1,
            ],
            self.groups == 1 ==> shape@ == seq![self.input_channels, self.col_shape_1],
    {
        if self.groups > 1 {
            vec![self.groups, self.input_ch_per_group, self.col_shape_1]
        } else {
            vec![self.input_channels, self.col_shape_1]
        }
    }

    /// Shape of the buffer that collects the groups' products.
    pub fn columns_buffer_shape(&self) -> (shape: [usize; 3])
        ensures
            shape@ == seq![self.groups, self.col_shape_0, self.col_shape_1],
    {
        [self.groups, self.col_shape_0, self.col_shape_1]
    }

    /// Shape of one group's product before it is written into the buffer.
    pub fn group_columns_shape(&self) -> (shape: [usize; 3])
        ensures
            shape@ == seq![1, self.col_shape_0, self.col_shape_1],
    {
        [1, self.col_shape_0, self.col_shape_1]
    }

    /// The part of the buffer that holds the product of `group`, as half-open
    /// ranges along the three axes.
    pub fn group_slice(&self, group: usize) -> (ranges: [(usize, usize); 3])
        requires
            self.wf(),
            group < self.groups,
        ensures
            ranges@ == seq![
                (group, (group + 1) as usize),
                (0usize, self.col_shape_0),
                (0usize, self.col_shape_1),
            ],
    {
        [(group, group + 1), (0, self.col_shape_0), (0, self.col_shape_1)]
    }

    /// Shape of the column buffer that the scatter kernel reads: the groups'
    /// rows one after the other.
    pub fn columns_shape(&self) -> (shape: [usize; 2])
        requires
            self.wf(),
        ensures
            shape@ == seq![self.col_rows, self.col_shape_1],
            shape@[0] * shape@[1] == self.launch.args.columns_len(),
    {
        proof {
            self.lemma_shapes_agree();
        }
        [self.col_rows, self.col_shape_1]
    }

    /// Shape of the image.
    pub fn image_shape(&self) -> (shape: [usize; 4])
        ensures
            shape@ == seq![self.batch_size, self.im_channels, self.im_h, self.im_w],
    {
        [self.batch_size, self.im_channels, self.im_h, self.im_w]
    }

    /// Shape of the row of ones that spreads the bias over the image.
    pub fn bias_ones_shape(&self) -> (shape: [usize; 2])
        ensures
            shape@ == seq![1usize, self.channel_len],
    {
        [1, self.channel_len]
    }

    /// Shape of the bias as a column.
    pub fn bias_column_shape(&self) -> (shape: [usize; 2])
        ensures
            shape@ == seq![self.im_channels, 1usize],
    {
        [self.im_channels, 1]
    }

    /// Shape of the spread bias, channels first; swapping the first two axes
    /// gives the shape of the image.
    pub fn bias_image_shape(&self) -> (shape: [usize; 4])
        ensures
            shape@ == seq![self.im_channels, self.batch_size, self.im_h, self.im_w],
    {
        [self.im_channels, self.batch_size, self.im_h, self.im_w]
    }

    /// Groups do not mix: every entry of the column buffer that is summed into
    /// an image element lies in the rows that the element's own group has
    /// written.  Group `g` writes the entries from `g * col_shape_0 * col_shape_1`
    /// up to `(g + 1) * col_shape_0 * col_shape_1`.
    pub proof fn lemma_groups_do_not_mix(self, pos: int, q: int)
        requires
            self.wf(),
            0 <= pos < self.launch.args.image_len(),
            self.launch.args.spec_taps(pos).contains(q),
        ensures
            self.im_ch_per_group > 0,
            self.col_shape_0 * self.col_shape_1 > 0,
            0 <= self.launch.args.pixel_channel(pos) / (self.im_ch_per_group as int) < self.groups,
            q / (self.col_shape_0 * self.col_shape_1) == self.launch.args.pixel_channel(pos) / (
            self.im_ch_per_group as int),
    {
        let args = self.launch.args;
        let cpg = self.im_ch_per_group as int;
        let kh = self.kernel_h as int;
        let kw = self.kernel_w as int;
        let c0 = self.col_shape_0 as int;
        let c1 = self.col_shape_1 as int;
        let g = self.groups as int;
        self.lemma_shapes_agree();
        args.lemma_pixel_in_image(pos);
        args.lemma_taps_upto_members(pos, args.out_h as int, q);
        let (cy, cx) = choose|cy: int, cx: int|
            0 <= cy < args.out_h && 0 <= cx < args.out_w && #[trigger] args.spec_tap_at(pos, cy, cx)
                == Some(q);
        args.lemma_tap_lands_on_pixel(pos, cy, cx);
        args.lemma_index_of_entry(q);
        let ch = args.pixel_channel(pos);
        assert(args.entry_channel(q) == ch) by {
            args.lemma_pixel_of_index(
                args.entry_batch(q),
                args.entry_channel(q),
                args.entry_cy(q) * args.stride_h + args.entry_ky(q) * args.dilation_h - args.pad_h,
                args.entry_cx(q) * args.stride_w + args.entry_kx(q) * args.dilation_w - args.pad_w,
            );
        }
        assert(cpg > 0) by (nonlinear_arith)
            requires
                cpg * g > 0,
                cpg >= 0,
                g >= 0,
        ;
        lemma_product_sign(cpg, kh);
        lemma_product_sign(cpg * kh, kw);
        lemma_product_sign(kw, kh);
        assert(c1 > 0) by {
            lemma_product_sign(args.batch_size as int, args.out_h as int);
            lemma_product_sign(args.batch_size * args.out_h, args.out_w as int);
        }
        lemma_product_sign(c0, c1);
        let row = args.entry_row(q);
        assert(row >= 0) by {
            lemma_quotient_range(q, c1);
        }
        // the group of the row is the group of its channel
        lemma_divide_twice(q, c1, c0);
        assert(c1 * c0 == c0 * c1) by (nonlinear_arith);
        lemma_divide_twice(row, kw, kh);
        lemma_divide_twice(row, kw * kh, cpg);
        assert((kw * kh) * cpg == cpg * kh * kw) by (nonlinear_arith);
        lemma_quotient_range(ch, cpg);
        lemma_quotient_bound(ch, cpg, g);
        assert(g * cpg == cpg * g) by (nonlinear_arith);
    }
}

} // verus!
