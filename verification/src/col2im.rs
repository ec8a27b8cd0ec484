//! The col2im scatter kernel: which entries of the column buffer are summed into
//! each element of the image.
//!
//! The column buffer has one row for each (image channel, kernel row, kernel
//! column) and one column for each (batch, grid row, grid column), where the grid
//! is the input of the transposed convolution.  Grid position `c` with kernel tap
//! `k` along an axis lands on image coordinate `c * stride + k * dilation -
//! padding`.

use vstd::prelude::*;
use crate::launch::{elemwise_cube_count, elemwise_grid, spec_check_grid, CubeDim, LaunchGrid};
use crate::options::{ConvError, ConvTransposeOptions};
use crate::shape::{num_elements, product};
use crate::arith::{
    lemma_divide_twice, lemma_index_bound, lemma_product_sign, lemma_quotient_bound,
    lemma_quotient_range, lemma_split_digit,
};

verus! {

/// The scalar geometry that the scatter kernel reads.
#[derive(Clone, Copy, Debug, PartialEq, Eq, Structural, Hash)]
pub struct Col2ImArgs {
    pub batch_size: u32,
    pub im_channels: u32,
    pub im_height: u32,
    pub im_width: u32,
    /// Height of the grid of column positions.
    pub out_h: u32,
    /// Width of the grid of column positions.
    pub out_w: u32,
    pub kernel_h: u32,
    pub kernel_w: u32,
    pub pad_h: i32,
    pub pad_w: i32,
    pub dilation_h: u32,
    pub dilation_w: u32,
    pub stride_h: u32,
    pub stride_w: u32,
}

/// Distance from the first to the last tap of a dilated kernel, plus one.
pub open spec fn spec_kernel_extent(kernel: int, dilation: int) -> int {
    (kernel - 1) * dilation + 1
}

/// The window of grid position `col` reaches over the coordinate `eff`, which is
/// an image coordinate shifted by the padding.
pub open spec fn spec_window_covers(
    eff: int,
    col: int,
    kernel: int,
    dilation: int,
    stride: int,
) -> bool {
    0 <= eff - col * stride < spec_kernel_extent(kernel, dilation)
}

/// The kernel tap through which grid position `col` lands on `eff`, if there is
/// one: the offset `eff - col * stride` must be a multiple of the dilation within
/// the kernel.
pub open spec fn spec_axis_tap(
    eff: int,
    col: int,
    kernel: int,
    dilation: int,
    stride: int,
) -> Option<int> {
    let offset = eff - col * stride;
    if 0 <= offset && offset % dilation == 0 && offset / dilation < kernel {
        Some(offset / dilation)
    } else {
        None
    }
}

/// A grid position has a tap on `eff` exactly if some tap of the kernel, placed
/// at that position, lands on `eff`; the tap is then that one.
pub proof fn lemma_axis_tap_lands(
    eff: int,
    col: int,
    kernel: int,
    dilation: int,
    stride: int,
    k: int,
)
    requires
        dilation > 0,
    ensures
        spec_axis_tap(eff, col, kernel, dilation, stride) == Some(k) <==> (0 <= k < kernel && col
            * stride + k * dilation == eff),
{
    let offset = eff - col * stride;
    if 0 <= k < kernel && col * stride + k * dilation == eff {
        lemma_product_sign(k, dilation);
        lemma_split_digit(k, 0, dilation);
    }
    if spec_axis_tap(eff, col, kernel, dilation, stride) == Some(k) {
        vstd::arithmetic::div_mod::lemma_fundamental_div_mod(offset, dilation);
        vstd::arithmetic::mul::lemma_mul_is_commutative(dilation, offset / dilation);
        lemma_quotient_range(offset, dilation);
    }
}

/// A tap is only found where the window covers the coordinate.
pub proof fn lemma_axis_tap_is_covered(eff: int, col: int, kernel: int, dilation: int, stride: int)
    requires
        dilation > 0,
        spec_axis_tap(eff, col, kernel, dilation, stride) is Some,
    ensures
        spec_window_covers(eff, col, kernel, dilation, stride),
{
    let k = spec_axis_tap(eff, col, kernel, dilation, stride)->0;
    lemma_axis_tap_lands(eff, col, kernel, dilation, stride, k);
    assert(k * dilation <= (kernel - 1) * dilation) by (nonlinear_arith)
        requires
            k <= kernel - 1,
            dilation > 0,
    ;
}

/// The grid positions along one axis whose window covers `eff`, as a half-open
/// range.  For a negative `eff` the range is empty.
pub fn col_range(eff: i64, kernel: u32, dilation: u32, stride: u32, out: u32) -> (range: (u32, u32))
    requires
        kernel >= 1,
        dilation >= 1,
        stride >= 1,
    ensures
        range.0 <= range.1 <= out,
        forall|col: int|
            range.0 <= col < range.1 <==> 0 <= col < out && #[trigger] spec_window_covers(
                eff as int,
                col,
                kernel as int,
                dilation as int,
                stride as int,
            ),
{
    if eff < 0 {
        assert forall|col: int| 0 <= col < out implies !#[trigger] spec_window_covers(
            eff as int,
            col,
            kernel as int,
            dilation as int,
            stride as int,
        ) by {
            lemma_product_sign(col, stride as int);
        }
        return (0, 0);
    }
    let e: u64 = eff as u64;
    assert((kernel - 1) * dilation <= 0xffff_ffff * 0xffff_ffff) by (nonlinear_arith)
        requires
            0 <= kernel - 1 <= 0xffff_ffff,
            0 <= dilation <= 0xffff_ffff,
    ;
    assert(0 <= (kernel - 1) * dilation) by (nonlinear_arith)
        requires
            0 <= kernel - 1,
            0 <= dilation,
    ;
    let extent: u64 = (kernel as u64 - 1) * (dilation as u64) + 1;
    let first: u64 = if e >= extent {
        (e - extent) / (stride as u64) + 1
    } else {
        0
    };
    let past: u64 = e / (stride as u64) + 1;
    let end: u64 = if past < out as u64 {
        past
    } else {
        out as u64
    };
    let start: u64 = if first < end {
        first
    } else {
        end
    };
    assert forall|col: int|
        start <= col < end <==> 0 <= col < out && #[trigger] spec_window_covers(
            eff as int,
            col,
            kernel as int,
            dilation as int,
            stride as int,
        ) by {
        lemma_quotient_bound(e as int, stride as int, col);
        if e >= extent {
            lemma_quotient_bound(e - extent, stride as int, col);
        } else if col >= 0 {
            lemma_product_sign(col, stride as int);
        }
    }
    (start as u32, end as u32)
}

impl Col2ImArgs {
    /// Kernel, dilation and stride are at least one along both axes.
    pub open spec fn wf(self) -> bool {
        &&& self.kernel_h >= 1
        &&& self.kernel_w >= 1
        &&& self.dilation_h >= 1
        &&& self.dilation_w >= 1
        &&& self.stride_h >= 1
        &&& self.stride_w >= 1
    }

    /// Tells whether kernel, dilation and stride are at least one along both
    /// axes.
    pub fn is_wf(&self) -> (b: bool)
        ensures
            b == self.wf(),
    {
        self.kernel_h >= 1 && self.kernel_w >= 1 && self.dilation_h >= 1 && self.dilation_w >= 1
            && self.stride_h >= 1 && self.stride_w >= 1
    }

    /// Number of elements of the image.
    pub open spec fn image_len(self) -> int {
        self.batch_size * self.im_channels * self.im_height * self.im_width
    }

    /// Rows of the column buffer: one for each image channel and kernel tap.
    pub open spec fn col_rows(self) -> int {
        self.im_channels * self.kernel_h * self.kernel_w
    }

    /// Columns of the column buffer: one for each batch and grid position.
    pub open spec fn col_cols(self) -> int {
        self.batch_size * self.out_h * self.out_w
    }

    /// Number of elements of the column buffer.
    pub open spec fn columns_len(self) -> int {
        self.col_rows() * self.col_cols()
    }

    /// Column of the image element at flat position `pos`; the width varies
    /// fastest, then the height, the channel and the batch.
    pub open spec fn pixel_x(self, pos: int) -> int {
        pos % (self.im_width as int)
    }

    /// Row of the image element at `pos`.
    pub open spec fn pixel_y(self, pos: int) -> int {
        (pos / (self.im_width as int)) % (self.im_height as int)
    }

    /// Channel of the image element at `pos`.
    pub open spec fn pixel_channel(self, pos: int) -> int {
        (pos / (self.im_width * self.im_height)) % (self.im_channels as int)
    }

    /// Batch of the image element at `pos`.
    pub open spec fn pixel_batch(self, pos: int) -> int {
        pos / (self.im_width * self.im_height * self.im_channels)
    }

    /// Row of the element at `pos`, shifted by the padding.
    pub open spec fn eff_y(self, pos: int) -> int {
        self.pixel_y(pos) + self.pad_h
    }

    /// Column of the element at `pos`, shifted by the padding.
    pub open spec fn eff_x(self, pos: int) -> int {
        self.pixel_x(pos) + self.pad_w
    }

    /// Flat position in the column buffer of the entry for image channel `ch`,
    /// kernel tap (`ky`, `kx`), batch `b` and grid position (`cy`, `cx`).
    pub open spec fn spec_column_index(
        self,
        ch: int,
        ky: int,
        kx: int,
        b: int,
        cy: int,
        cx: int,
    ) -> int {
        ((ch * self.kernel_h + ky) * self.kernel_w + kx) * self.col_cols() + (b * self.out_h + cy)
            * self.out_w + cx
    }

    /// The entry of the column buffer that grid position (`cy`, `cx`) adds to the
    /// image element at `pos`, if it adds one.
    pub open spec fn spec_tap_at(self, pos: int, cy: int, cx: int) -> Option<int> {
        match (
            spec_axis_tap(
                self.eff_y(pos),
                cy,
                self.kernel_h as int,
                self.dilation_h as int,
                self.stride_h as int,
            ),
            spec_axis_tap(
                self.eff_x(pos),
                cx,
                self.kernel_w as int,
                self.dilation_w as int,
                self.stride_w as int,
            ),
        ) {
            (Some(ky), Some(kx)) => Some(
                self.spec_column_index(
                    self.pixel_channel(pos),
                    ky,
                    kx,
                    self.pixel_batch(pos),
                    cy,
                    cx,
                ),
            ),
            _ => None,
        }
    }

    /// The entries that the first `n` positions of grid row `cy` add to the
    /// element at `pos`, from left to right.
    pub open spec fn spec_row_taps(self, pos: int, cy: int, n: int) -> Seq<int>
        decreases n,
    {
        if n <= 0 {
            Seq::empty()
        } else {
            match self.spec_tap_at(pos, cy, n - 1) {
                Some(q) => self.spec_row_taps(pos, cy, n - 1).push(q),
                None => self.spec_row_taps(pos, cy, n - 1),
            }
        }
    }

    /// The entries that the first `m` rows of the grid add to the element at
    /// `pos`, row by row.
    pub open spec fn spec_taps_upto(self, pos: int, m: int) -> Seq<int>
        decreases m,
    {
        if m <= 0 {
            Seq::empty()
        } else {
            self.spec_taps_upto(pos, m - 1) + self.spec_row_taps(pos, m - 1, self.out_w as int)
        }
    }

    /// The entries of the column buffer that are summed into the image element
    /// at `pos`, in the order in which the kernel visits them.
    pub open spec fn spec_taps(self, pos: int) -> Seq<int> {
        self.spec_taps_upto(pos, self.out_h as int)
    }

    /// Grid positions without a tap add nothing to a row.
    pub proof fn lemma_row_taps_skip(self, pos: int, cy: int, n: int, m: int)
        requires
            0 <= n <= m,
            forall|cx: int| n <= cx < m ==> self.spec_tap_at(pos, cy, cx) is None,
        ensures
            self.spec_row_taps(pos, cy, m) == self.spec_row_taps(pos, cy, n),
        decreases m - n,
    {
        if n < m {
            self.lemma_row_taps_skip(pos, cy, n, m - 1);
        }
    }

    /// Grid rows without a tap along the vertical axis add nothing.
    pub proof fn lemma_taps_skip_rows(self, pos: int, n: int, m: int)
        requires
            0 <= n <= m,
            forall|cy: int|
                n <= cy < m ==> spec_axis_tap(
                    self.eff_y(pos),
                    cy,
                    self.kernel_h as int,
                    self.dilation_h as int,
                    self.stride_h as int,
                ) is None,
        ensures
            self.spec_taps_upto(pos, m) == self.spec_taps_upto(pos, n),
        decreases m - n,
    {
        if n < m {
            self.lemma_taps_skip_rows(pos, n, m - 1);
            self.lemma_row_taps_skip(pos, m - 1, 0, self.out_w as int);
            assert(self.spec_row_taps(pos, m - 1, 0) =~= Seq::<int>::empty());
            assert(self.spec_taps_upto(pos, m - 1) + Seq::<int>::empty() =~= self.spec_taps_upto(
                pos,
                m - 1,
            ));
        }
    }
}

/// The positions held by a vector of indices, as mathematical integers.
pub open spec fn indices(taps: Seq<usize>) -> Seq<int> {
    taps.map_values(|q: usize| q as int)
}

impl Col2ImArgs {
    /// Coordinates within their ranges give a position within the column buffer.
    pub proof fn lemma_column_index_bound(self, ch: int, ky: int, kx: int, b: int, cy: int, cx: int)
        requires
            0 <= ch < self.im_channels,
            0 <= ky < self.kernel_h,
            0 <= kx < self.kernel_w,
            0 <= b < self.batch_size,
            0 <= cy < self.out_h,
            0 <= cx < self.out_w,
        ensures
            0 <= ch * self.kernel_h <= ch * self.kernel_h + ky < self.im_channels * self.kernel_h
                <= self.col_rows(),
            0 <= (ch * self.kernel_h + ky) * self.kernel_w <= (ch * self.kernel_h + ky)
                * self.kernel_w + kx < self.col_rows(),
            0 <= b * self.out_h <= b * self.out_h + cy < self.batch_size * self.out_h
                <= self.col_cols(),
            0 <= (b * self.out_h + cy) * self.out_w <= (b * self.out_h + cy) * self.out_w + cx
                < self.col_cols(),
            0 <= ((ch * self.kernel_h + ky) * self.kernel_w + kx) * self.col_cols()
                <= self.spec_column_index(ch, ky, kx, b, cy, cx) < self.columns_len(),
            self.col_rows() <= self.columns_len(),
            self.col_cols() <= self.columns_len(),
    {
        let rows1 = self.im_channels * self.kernel_h;
        let cols1 = self.batch_size * self.out_h;
        lemma_index_bound(ch, self.im_channels as int, ky, self.kernel_h as int);
        lemma_index_bound(ch * self.kernel_h + ky, rows1, kx, self.kernel_w as int);
        lemma_index_bound(b, self.batch_size as int, cy, self.out_h as int);
        lemma_index_bound(b * self.out_h + cy, cols1, cx, self.out_w as int);
        lemma_index_bound(
            (ch * self.kernel_h + ky) * self.kernel_w + kx,
            self.col_rows(),
            (b * self.out_h + cy) * self.out_w + cx,
            self.col_cols(),
        );
        assert(rows1 <= rows1 * self.kernel_w) by (nonlinear_arith)
            requires
                rows1 >= 0,
                self.kernel_w >= 1,
        ;
        assert(cols1 <= cols1 * self.out_w) by (nonlinear_arith)
            requires
                cols1 >= 0,
                self.out_w >= 1,
        ;
        let r = self.col_rows();
        let c = self.col_cols();
        assert(r <= r * c && c <= r * c) by (nonlinear_arith)
            requires
                r >= 1,
                c >= 1,
        ;
    }

    /// Position in the column buffer of the entry for the given coordinates.
    fn column_index(&self, ch: u32, ky: u32, kx: u32, b: u32, cy: u32, cx: u32) -> (q: usize)
        requires
            ch < self.im_channels,
            ky < self.kernel_h,
            kx < self.kernel_w,
            b < self.batch_size,
            cy < self.out_h,
            cx < self.out_w,
            self.columns_len() <= usize::MAX,
        ensures
            q == self.spec_column_index(
                ch as int,
                ky as int,
                kx as int,
                b as int,
                cy as int,
                cx as int,
            ),
            q < self.columns_len(),
    {
        proof {
            self.lemma_column_index_bound(
                ch as int,
                ky as int,
                kx as int,
                b as int,
                cy as int,
                cx as int,
            );
        }
        let row: u64 = (ch as u64 * self.kernel_h as u64 + ky as u64) * self.kernel_w as u64
            + kx as u64;
        let col: u64 = (b as u64 * self.out_h as u64 + cy as u64) * self.out_w as u64 + cx as u64;
        let cols: u64 = (self.batch_size as u64 * self.out_h as u64) * self.out_w as u64;
        (row * cols + col) as usize
    }

    /// The sides of the column buffer and of the image are products of three
    /// 32-bit numbers and fit in 96 bits.
    pub proof fn lemma_rows_fit(self)
        ensures
            0 <= self.col_rows() <= 0xffff_ffff * 0xffff_ffff * 0xffff_ffff,
            0 <= self.col_cols() <= 0xffff_ffff * 0xffff_ffff * 0xffff_ffff,
            0 <= self.batch_size * self.im_height * self.im_width <= 0xffff_ffff * 0xffff_ffff
                * 0xffff_ffff,
            0 <= self.image_len(),
    {
        let c = self.im_channels as int;
        let kh = self.kernel_h as int;
        let kw = self.kernel_w as int;
        let n = self.batch_size as int;
        let oh = self.out_h as int;
        let ow = self.out_w as int;
        let h = self.im_height as int;
        let w = self.im_width as int;
        assert(0 <= c * kh * kw <= 0xffff_ffff * 0xffff_ffff * 0xffff_ffff) by (nonlinear_arith)
            requires
                0 <= c <= 0xffff_ffff,
                0 <= kh <= 0xffff_ffff,
                0 <= kw <= 0xffff_ffff,
        ;
        assert(0 <= n * oh * ow <= 0xffff_ffff * 0xffff_ffff * 0xffff_ffff) by (nonlinear_arith)
            requires
                0 <= n <= 0xffff_ffff,
                0 <= oh <= 0xffff_ffff,
                0 <= ow <= 0xffff_ffff,
        ;
        assert(0 <= n * h * w <= 0xffff_ffff * 0xffff_ffff * 0xffff_ffff) by (nonlinear_arith)
            requires
                0 <= n <= 0xffff_ffff,
                0 <= h <= 0xffff_ffff,
                0 <= w <= 0xffff_ffff,
        ;
        assert(0 <= n * c * h * w) by (nonlinear_arith)
            requires
                0 <= n,
                0 <= c,
                0 <= h,
                0 <= w,
        ;
    }

    /// Number of elements of the image.
    pub fn image_elements(&self) -> (n: u128)
        ensures
            n == self.image_len(),
    {
        assert(0 <= self.batch_size * self.im_channels <= 0xffff_ffff * 0xffff_ffff
            && self.batch_size * self.im_channels * self.im_height <= 0xffff_ffff * 0xffff_ffff
            * 0xffff_ffff && self.batch_size * self.im_channels * self.im_height * self.im_width
            <= 0xffff_ffff * 0xffff_ffff * 0xffff_ffff * 0xffff_ffff) by (nonlinear_arith)
            requires
                0 <= self.batch_size <= 0xffff_ffff,
                0 <= self.im_channels <= 0xffff_ffff,
                0 <= self.im_height <= 0xffff_ffff,
                0 <= self.im_width <= 0xffff_ffff,
        ;
        ((self.batch_size as u128 * self.im_channels as u128) * self.im_height as u128)
            * self.im_width as u128
    }

    /// Number of elements of the column buffer, or `None` where it does not fit
    /// in `usize`.
    pub fn columns_elements(&self) -> (n: Option<usize>)
        ensures
            self.columns_len() <= usize::MAX ==> n == Some(self.columns_len() as usize),
            self.columns_len() > usize::MAX ==> n is None,
    {
        let dims: [usize; 6] = [
            self.im_channels as usize,
            self.kernel_h as usize,
            self.kernel_w as usize,
            self.batch_size as usize,
            self.out_h as usize,
            self.out_w as usize,
        ];
        proof {
            let d = dims@;
            reveal_with_fuel(crate::shape::product, 7);
            assert(d.drop_last().drop_last().drop_last().drop_last().drop_last().drop_last().len()
                == 0);
            let r = self.col_rows();
            let b = self.batch_size as int;
            let h = self.out_h as int;
            let w = self.out_w as int;
            assert(((r * b) * h) * w == r * ((b * h) * w)) by (nonlinear_arith);
            let c = self.im_channels as int;
            let kh = self.kernel_h as int;
            let kw = self.kernel_w as int;
            assert(1 * c == c) by (nonlinear_arith);
            assert(crate::shape::product(d) == ((((((1 * c) * kh) * kw) * b) * h) * w));
        }
        crate::shape::num_elements(dims.as_slice())
    }
}

/// Appending an index appends its position.
proof fn lemma_indices_push(taps: Seq<usize>, q: usize)
    ensures
        indices(taps.push(q)) == indices(taps).push(q as int),
{
    assert(indices(taps.push(q)) =~= indices(taps).push(q as int));
}

impl Col2ImArgs {
    /// The coordinates of an image element are within the image.
    pub proof fn lemma_pixel_in_image(self, pos: int)
        requires
            0 <= pos < self.image_len(),
        ensures
            self.batch_size > 0,
            self.im_channels > 0,
            self.im_height > 0,
            self.im_width > 0,
            0 <= self.pixel_x(pos) < self.im_width,
            0 <= self.pixel_y(pos) < self.im_height,
            0 <= self.pixel_channel(pos) < self.im_channels,
            0 <= self.pixel_batch(pos) < self.batch_size,
            self.im_width * self.im_height > 0,
            self.im_width * self.im_height * self.im_channels > 0,
            pos == ((self.pixel_batch(pos) * self.im_channels + self.pixel_channel(pos))
                * self.im_height + self.pixel_y(pos)) * self.im_width + self.pixel_x(pos),
    {
        let b = self.batch_size as int;
        let c = self.im_channels as int;
        let h = self.im_height as int;
        let w = self.im_width as int;
        assert(b > 0 && c > 0 && h > 0 && w > 0) by (nonlinear_arith)
            requires
                b * c * h * w > 0,
                b >= 0,
                c >= 0,
                h >= 0,
                w >= 0,
        ;
        lemma_product_sign(w, h);
        lemma_product_sign(w * h, c);
        lemma_quotient_range(pos, w);
        lemma_quotient_range(pos / w, h);
        lemma_divide_twice(pos, w, h);
        lemma_quotient_range(pos, w * h);
        lemma_quotient_range(pos / (w * h), c);
        lemma_divide_twice(pos, w * h, c);
        lemma_quotient_range(pos, w * h * c);
        assert(b * c * h * w == b * (w * h * c)) by (nonlinear_arith);
        lemma_quotient_bound(pos, w * h * c, b);
        let p1 = pos / w;
        let p2 = p1 / h;
        let p3 = p2 / c;
        vstd::arithmetic::div_mod::lemma_fundamental_div_mod(pos, w);
        vstd::arithmetic::div_mod::lemma_fundamental_div_mod(p1, h);
        vstd::arithmetic::div_mod::lemma_fundamental_div_mod(p2, c);
        assert(pos == ((p3 * c + p2 % c) * h + p1 % h) * w + pos % w) by (nonlinear_arith)
            requires
                pos == w * p1 + pos % w,
                p1 == h * p2 + p1 % h,
                p2 == c * p3 + p2 % c,
        ;
    }
}

impl Col2ImArgs {
    /// The grid rows outside the range of rows whose window covers the element
    /// at `pos` add nothing to it.
    proof fn lemma_rows_outside_range(self, pos: int, start: int, end: int)
        requires
            self.wf(),
            0 <= start <= end <= self.out_h,
            forall|cy: int|
                start <= cy < end <==> 0 <= cy < self.out_h && #[trigger] spec_window_covers(
                    self.eff_y(pos),
                    cy,
                    self.kernel_h as int,
                    self.dilation_h as int,
                    self.stride_h as int,
                ),
        ensures
            self.spec_taps_upto(pos, start) == Seq::<int>::empty(),
            self.spec_taps(pos) == self.spec_taps_upto(pos, end),
    {
        assert forall|cy: int| 0 <= cy < self.out_h && !(start <= cy < end) implies spec_axis_tap(
            self.eff_y(pos),
            cy,
            self.kernel_h as int,
            self.dilation_h as int,
            self.stride_h as int,
        ) is None by {
            if spec_axis_tap(
                self.eff_y(pos),
                cy,
                self.kernel_h as int,
                self.dilation_h as int,
                self.stride_h as int,
            ) is Some {
                lemma_axis_tap_is_covered(
                    self.eff_y(pos),
                    cy,
                    self.kernel_h as int,
                    self.dilation_h as int,
                    self.stride_h as int,
                );
            }
        }
        self.lemma_taps_skip_rows(pos, 0, start);
        self.lemma_taps_skip_rows(pos, end, self.out_h as int);
    }

    /// The grid columns outside the range of columns whose window covers the
    /// element at `pos` add nothing to it.
    proof fn lemma_cols_outside_range(self, pos: int, cy: int, start: int, end: int)
        requires
            self.wf(),
            0 <= start <= end <= self.out_w,
            forall|cx: int|
                start <= cx < end <==> 0 <= cx < self.out_w && #[trigger] spec_window_covers(
                    self.eff_x(pos),
                    cx,
                    self.kernel_w as int,
                    self.dilation_w as int,
                    self.stride_w as int,
                ),
        ensures
            self.spec_row_taps(pos, cy, start) == Seq::<int>::empty(),
            self.spec_row_taps(pos, cy, self.out_w as int) == self.spec_row_taps(pos, cy, end),
    {
        assert forall|cx: int| 0 <= cx < self.out_w && !(start <= cx < end) implies self.spec_tap_at(
            pos,
            cy,
            cx,
        ) is None by {
            if spec_axis_tap(
                self.eff_x(pos),
                cx,
                self.kernel_w as int,
                self.dilation_w as int,
                self.stride_w as int,
            ) is Some {
                lemma_axis_tap_is_covered(
                    self.eff_x(pos),
                    cx,
                    self.kernel_w as int,
                    self.dilation_w as int,
                    self.stride_w as int,
                );
            }
        }
        self.lemma_row_taps_skip(pos, cy, 0, start);
        self.lemma_row_taps_skip(pos, cy, end, self.out_w as int);
    }

    /// Where the window of a grid position covers a coordinate, the offset of
    /// the coordinate within the window decides whether there is a tap: it must
    /// be a multiple of the dilation, and the tap is then the quotient.
    proof fn lemma_tap_in_window(eff: int, col: int, kernel: int, dilation: int, stride: int)
        requires
            kernel >= 1,
            dilation >= 1,
            spec_window_covers(eff, col, kernel, dilation, stride),
        ensures
            0 <= (eff - col * stride) / dilation < kernel,
            (eff - col * stride) % dilation == 0 ==> spec_axis_tap(
                eff,
                col,
                kernel,
                dilation,
                stride,
            ) == Some((eff - col * stride) / dilation),
            (eff - col * stride) % dilation != 0 ==> spec_axis_tap(
                eff,
                col,
                kernel,
                dilation,
                stride,
            ) is None,
    {
        let offset = eff - col * stride;
        lemma_quotient_bound(offset, dilation, kernel);
        lemma_quotient_range(offset, dilation);
        assert(kernel * dilation == (kernel - 1) * dilation + dilation) by (nonlinear_arith);
    }
}

/// The entries of the column buffer that are summed into the image element at
/// flat position `pos`: for every grid position whose window covers the element,
/// the entry of the kernel tap that lands on it, if the offset is a multiple of
/// the dilation.  A position past the end of the image has no entries.
#[verifier::loop_isolation(false)]
pub fn col2im_taps(args: &Col2ImArgs, pos: usize) -> (taps: Vec<usize>)
    requires
        args.wf(),
        args.columns_len() <= usize::MAX,
    ensures
        pos < args.image_len() ==> indices(taps@) == args.spec_taps(pos as int),
        pos >= args.image_len() ==> taps@.len() == 0,
        forall|i: int| 0 <= i < taps@.len() ==> taps@[i] < args.columns_len(),
{
    let mut taps: Vec<usize> = Vec::new();
    let len = args.image_elements();
    if pos as u128 >= len {
        return taps;
    }
    proof {
        args.lemma_pixel_in_image(pos as int);
    }
    let w = args.im_width as u64;
    let h = args.im_height as u64;
    let c = args.im_channels as u64;
    assert(w * h <= 0xffff_ffff * 0xffff_ffff && w * h * c <= 0xffff_ffff * 0xffff_ffff
        * 0xffff_ffff) by (nonlinear_arith)
        requires
            0 <= w <= 0xffff_ffff,
            0 <= h <= 0xffff_ffff,
            0 <= c <= 0xffff_ffff,
    ;
    let x_im: u64 = (pos as u64) % w;
    let y_im: u64 = ((pos as u64) / w) % h;
    let ch: u32 = (((pos as u64) / (w * h)) % c) as u32;
    let batch: u32 = ((pos as u128) / ((w * h) as u128 * c as u128)) as u32;
    let y_eff: i64 = y_im as i64 + args.pad_h as i64;
    let x_eff: i64 = x_im as i64 + args.pad_w as i64;
    let (y_start, y_end) = col_range(
        y_eff,
        args.kernel_h,
        args.dilation_h,
        args.stride_h,
        args.out_h,
    );
    let (x_start, x_end) = col_range(
        x_eff,
        args.kernel_w,
        args.dilation_w,
        args.stride_w,
        args.out_w,
    );
    proof {
        args.lemma_rows_outside_range(pos as int, y_start as int, y_end as int);
        assert(indices(taps@) =~= Seq::<int>::empty());
    }
    let mut cy: u32 = y_start;
    while cy < y_end
        invariant
            y_start <= cy <= y_end,
            indices(taps@) == args.spec_taps_upto(pos as int, cy as int),
            forall|i: int| 0 <= i < taps@.len() ==> taps@[i] < args.columns_len(),
        decreases y_end - cy,
    {
        proof {
            assert(spec_window_covers(
                y_eff as int,
                cy as int,
                args.kernel_h as int,
                args.dilation_h as int,
                args.stride_h as int,
            ));
            lemma_product_sign(cy as int, args.stride_h as int);
            Col2ImArgs::lemma_tap_in_window(
                y_eff as int,
                cy as int,
                args.kernel_h as int,
                args.dilation_h as int,
                args.stride_h as int,
            );
            args.lemma_cols_outside_range(pos as int, cy as int, x_start as int, x_end as int);
            assert(args.spec_taps_upto(pos as int, cy as int) + Seq::<int>::empty()
                =~= args.spec_taps_upto(pos as int, cy as int));
        }
        let k_y: u64 = (y_eff - cy as i64 * args.stride_h as i64) as u64;
        let mut cx: u32 = x_start;
        while cx < x_end
            invariant
                x_start <= cx <= x_end,
                cy < y_end,
                indices(taps@) == args.spec_taps_upto(pos as int, cy as int) + args.spec_row_taps(
                    pos as int,
                    cy as int,
                    cx as int,
                ),
                forall|i: int| 0 <= i < taps@.len() ==> taps@[i] < args.columns_len(),
            decreases x_end - cx,
        {
            proof {
                assert(spec_window_covers(
                    x_eff as int,
                    cx as int,
                    args.kernel_w as int,
                    args.dilation_w as int,
                    args.stride_w as int,
                ));
                lemma_product_sign(cx as int, args.stride_w as int);
                Col2ImArgs::lemma_tap_in_window(
                    x_eff as int,
                    cx as int,
                    args.kernel_w as int,
                    args.dilation_w as int,
                    args.stride_w as int,
                );
            }
            let k_x: u64 = (x_eff - cx as i64 * args.stride_w as i64) as u64;
            if k_y % (args.dilation_h as u64) == 0 && k_x % (args.dilation_w as u64) == 0 {
                let kernel_y: u32 = (k_y / (args.dilation_h as u64)) as u32;
                let kernel_x: u32 = (k_x / (args.dilation_w as u64)) as u32;
                let q = args.column_index(ch, kernel_y, kernel_x, batch, cy, cx);
                proof {
                    lemma_indices_push(taps@, q);
                    assert((args.spec_taps_upto(pos as int, cy as int) + args.spec_row_taps(
                        pos as int,
                        cy as int,
                        cx as int,
                    )).push(q as int) =~= args.spec_taps_upto(pos as int, cy as int)
                        + args.spec_row_taps(pos as int, cy as int, cx as int).push(q as int));
                }
                taps.push(q);
            }
            cx += 1;
        }
        cy += 1;
    }
    taps
}

/// Sum of the entries of `columns` at the positions `taps`.
pub open spec fn spec_gather(columns: Seq<i64>, taps: Seq<int>) -> int
    decreases taps.len(),
{
    if taps.len() == 0 {
        0
    } else {
        spec_gather(columns, taps.drop_last()) + columns[taps.last()]
    }
}

/// The image element at `pos` that col2im folds out of `columns`: the sum of the
/// entries that land on it.
pub open spec fn spec_col2im_value(columns: Seq<i64>, args: Col2ImArgs, pos: int) -> int {
    spec_gather(columns, args.spec_taps(pos))
}

/// The scatter kernel for one image element: the sum of the entries of the
/// column buffer that land on the element at flat position `pos`, and `None`
/// for a position past the end of the image, where there is nothing to do.
/// The sum of 64-bit entries is exact in 128 bits.
pub fn col2im_kernel(columns: &Vec<i64>, args: &Col2ImArgs, pos: usize) -> (value: Option<i128>)
    requires
        args.wf(),
        columns@.len() == args.columns_len(),
    ensures
        pos < args.image_len() ==> value == Some(
            spec_col2im_value(columns@, *args, pos as int) as i128,
        ),
        pos < args.image_len() ==> i128::MIN <= spec_col2im_value(columns@, *args, pos as int)
            <= i128::MAX,
        pos >= args.image_len() ==> value is None,
{
    if pos as u128 >= args.image_elements() {
        return None;
    }
    let total = columns.len();
    assert(args.columns_len() == total);
    let taps = col2im_taps(args, pos);
    let count = taps.len();
    let ghost all = indices(taps@);
    let mut acc: i128 = 0;
    let mut i: usize = 0;
    while i < count
        invariant
            count == taps@.len(),
            all == indices(taps@),
            i <= count,
            columns@.len() == args.columns_len(),
            forall|j: int| 0 <= j < taps@.len() ==> taps@[j] < args.columns_len(),
            acc == spec_gather(columns@, all.take(i as int)),
            -(i * 0x8000_0000_0000_0000) <= acc <= i * 0x8000_0000_0000_0000,
        decreases count - i,
    {
        proof {
            let longer = all.take(i + 1);
            assert(longer.drop_last() =~= all.take(i as int));
            assert(longer.last() == taps@[i as int]);
        }
        acc = acc + columns[taps[i]] as i128;
        i += 1;
    }
    proof {
        assert(all.take(count as int) =~= all);
    }
    Some(acc)
}

/// Folds a column buffer into an image: the kernel, run for every element.
pub fn col2im_image(columns: &Vec<i64>, args: &Col2ImArgs) -> (image: Vec<i128>)
    requires
        args.wf(),
        columns@.len() == args.columns_len(),
        args.image_len() <= usize::MAX,
    ensures
        image@.len() == args.image_len(),
        forall|pos: int|
            0 <= pos < image@.len() ==> #[trigger] image@[pos] == spec_col2im_value(
                columns@,
                *args,
                pos,
            ),
{
    let len = args.image_elements() as usize;
    let mut image: Vec<i128> = Vec::new();
    let mut pos: usize = 0;
    while pos < len
        invariant
            args.wf(),
            columns@.len() == args.columns_len(),
            len == args.image_len(),
            pos <= len,
            image@.len() == pos,
            forall|p: int|
                0 <= p < pos ==> #[trigger] image@[p] == spec_col2im_value(columns@, *args, p),
        decreases len - pos,
    {
        match col2im_kernel(columns, args, pos) {
            Some(value) => {
                image.push(value);
            },
            None => {
                assert(false);
            },
        }
        pos += 1;
    }
    image
}

/// What is handed to the device to fold a column buffer into an image.
#[derive(Clone, Copy, Debug, PartialEq, Eq, Structural, Hash)]
pub struct Col2ImLaunch {
    pub args: Col2ImArgs,
    /// Number of image elements, one unit of work each.
    pub num_elems: usize,
    pub grid: LaunchGrid,
}

/// The geometry fits the scalar types of the kernel's arguments.
pub open spec fn col2im_args_fit(
    im_shape: [usize; 4],
    kernel_h: usize,
    kernel_w: usize,
    input_h: usize,
    input_w: usize,
    options: ConvTransposeOptions,
) -> bool {
    &&& im_shape[0] <= u32::MAX
    &&& im_shape[1] <= u32::MAX
    &&& im_shape[2] <= u32::MAX
    &&& im_shape[3] <= u32::MAX
    &&& input_h <= u32::MAX
    &&& input_w <= u32::MAX
    &&& kernel_h <= u32::MAX
    &&& kernel_w <= u32::MAX
    &&& options.padding[0] <= i32::MAX
    &&& options.padding[1] <= i32::MAX
    &&& options.dilation[0] <= u32::MAX
    &&& options.dilation[1] <= u32::MAX
    &&& options.stride[0] <= u32::MAX
    &&& options.stride[1] <= u32::MAX
}

/// The kernel's arguments for an image of shape `im_shape` (batch, channels,
/// height, width) and a grid of `input_h` by `input_w` column positions.
pub open spec fn spec_col2im_args(
    im_shape: [usize; 4],
    kernel_h: usize,
    kernel_w: usize,
    input_h: usize,
    input_w: usize,
    options: ConvTransposeOptions,
) -> Col2ImArgs {
    Col2ImArgs {
        batch_size: im_shape[0] as u32,
        im_channels: im_shape[1] as u32,
        im_height: im_shape[2] as u32,
        im_width: im_shape[3] as u32,
        out_h: input_h as u32,
        out_w: input_w as u32,
        kernel_h: kernel_h as u32,
        kernel_w: kernel_w as u32,
        pad_h: options.padding[0] as i32,
        pad_w: options.padding[1] as i32,
        dilation_h: options.dilation[0] as u32,
        dilation_w: options.dilation[1] as u32,
        stride_h: options.stride[0] as u32,
        stride_w: options.stride[1] as u32,
    }
}

/// What [`col2im`] returns, given the cube counts that the runtime proposes.
pub open spec fn spec_col2im(
    im_shape: [usize; 4],
    kernel_h: usize,
    kernel_w: usize,
    input_h: usize,
    input_w: usize,
    options: ConvTransposeOptions,
) -> Result<Col2ImLaunch, ConvError> {
    if !col2im_args_fit(im_shape, kernel_h, kernel_w, input_h, input_w, options) {
        Err(ConvError::DimensionTooLarge)
    } else if product(im_shape@) > usize::MAX {
        Err(ConvError::SizeOutOfRange)
    } else {
        let num_elems = product(im_shape@) as usize;
        match spec_check_grid(
            num_elems,
            CubeDim { x: 16, y: 16, z: 1 },
            elemwise_cube_count(num_elems, 16, 16, 1),
        ) {
            Ok(grid) => Ok(
                Col2ImLaunch {
                    args: spec_col2im_args(im_shape, kernel_h, kernel_w, input_h, input_w, options),
                    num_elems,
                    grid,
                },
            ),
            Err(e) => Err(ConvError::Launch(e)),
        }
    }
}

/// Plans the launch of the scatter kernel: converts the geometry to the
/// kernel's scalar arguments and asks the runtime for a grid with one unit for
/// each image element.  Nothing is truncated: a dimension that does not fit is
/// an error, and so is a grid that would leave elements out.
pub fn col2im(
    im_shape: [usize; 4],
    kernel_h: usize,
    kernel_w: usize,
    input_h: usize,
    input_w: usize,
    options: &ConvTransposeOptions,
) -> (launch: Result<Col2ImLaunch, ConvError>)
    ensures
        launch == spec_col2im(im_shape, kernel_h, kernel_w, input_h, input_w, *options),
        launch matches Ok(l) ==> l.grid.covers(l.num_elems) && l.num_elems == l.args.image_len(),
{
    let limit: usize = u32::MAX as usize;
    let pad_limit: usize = i32::MAX as usize;
    if im_shape[0] > limit || im_shape[1] > limit || im_shape[2] > limit || im_shape[3] > limit
        || input_h > limit || input_w > limit || kernel_h > limit || kernel_w > limit
        || options.padding[0] > pad_limit || options.padding[1] > pad_limit || options.dilation[0]
        > limit || options.dilation[1] > limit || options.stride[0] > limit || options.stride[1]
        > limit {
        return Err(ConvError::DimensionTooLarge);
    }
    let num_elems = match num_elements(im_shape.as_slice()) {
        Some(n) => n,
        None => {
            return Err(ConvError::SizeOutOfRange);
        },
    };
    let args = Col2ImArgs {
        batch_size: im_shape[0] as u32,
        im_channels: im_shape[1] as u32,
        im_height: im_shape[2] as u32,
        im_width: im_shape[3] as u32,
        out_h: input_h as u32,
        out_w: input_w as u32,
        kernel_h: kernel_h as u32,
        kernel_w: kernel_w as u32,
        pad_h: options.padding[0] as i32,
        pad_w: options.padding[1] as i32,
        dilation_h: options.dilation[0] as u32,
        dilation_w: options.dilation[1] as u32,
        stride_h: options.stride[0] as u32,
        stride_w: options.stride[1] as u32,
    };
    proof {
        let d = im_shape@;
        reveal_with_fuel(product, 5);
        assert(d.drop_last().drop_last().drop_last().drop_last().len() == 0);
        assert(1 * (d[0] as int) == d[0]) by (nonlinear_arith);
        assert(product(d) == (((1 * d[0]) * d[1]) * d[2]) * d[3]);
    }
    match elemwise_grid(num_elems) {
        Ok(grid) => Ok(Col2ImLaunch { args, num_elems, grid }),
        Err(e) => Err(ConvError::Launch(e)),
    }
}

} // verus!
