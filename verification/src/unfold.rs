//! The unfolding that col2im is the adjoint of.
//!
//! Unfolding copies image elements into a column buffer: the entry for image
//! channel `c`, kernel tap (`ky`, `kx`), batch `b` and grid position (`cy`, `cx`)
//! holds the image element of that batch and channel at row `cy * stride_h + ky *
//! dilation_h - pad_h` and column `cx * stride_w + kx * dilation_w - pad_w`, or
//! zero where that lies outside the image.  Col2im sums, for every image
//! element, exactly the entries that unfolding fills from it, so the inner
//! product of a folded column buffer with an image is that of the buffer with
//! the unfolded image.

use vstd::prelude::*;
use vstd::arithmetic::div_mod::lemma_fundamental_div_mod;
use vstd::arithmetic::mul::lemma_mul_is_commutative;
use crate::arith::{
    lemma_divide_twice, lemma_index_bound, lemma_product_sign, lemma_quotient_bound,
    lemma_quotient_range, lemma_split_digit,
};
use crate::col2im::{
    lemma_axis_tap_lands, spec_axis_tap, spec_col2im_value, spec_gather, Col2ImArgs,
};

verus! {

impl Col2ImArgs {
    /// Row of the column buffer that holds the entry at flat position `q`.
    pub open spec fn entry_row(self, q: int) -> int {
        q / self.col_cols()
    }

    /// Column of the column buffer that holds the entry at `q`.
    pub open spec fn entry_col(self, q: int) -> int {
        q % self.col_cols()
    }

    /// Image channel of the entry at `q`.
    pub open spec fn entry_channel(self, q: int) -> int {
        (self.entry_row(q) / (self.kernel_w as int)) / (self.kernel_h as int)
    }

    /// Kernel row of the entry at `q`.
    pub open spec fn entry_ky(self, q: int) -> int {
        (self.entry_row(q) / (self.kernel_w as int)) % (self.kernel_h as int)
    }

    /// Kernel column of the entry at `q`.
    pub open spec fn entry_kx(self, q: int) -> int {
        self.entry_row(q) % (self.kernel_w as int)
    }

    /// Batch of the entry at `q`.
    pub open spec fn entry_batch(self, q: int) -> int {
        (self.entry_col(q) / (self.out_w as int)) / (self.out_h as int)
    }

    /// Grid row of the entry at `q`.
    pub open spec fn entry_cy(self, q: int) -> int {
        (self.entry_col(q) / (self.out_w as int)) % (self.out_h as int)
    }

    /// Grid column of the entry at `q`.
    pub open spec fn entry_cx(self, q: int) -> int {
        self.entry_col(q) % (self.out_w as int)
    }

    /// Flat position of the image element of batch `b` and channel `c` at row
    /// `y` and column `x`.
    pub open spec fn spec_image_index(self, b: int, c: int, y: int, x: int) -> int {
        ((b * self.im_channels + c) * self.im_height + y) * self.im_width + x
    }

    /// The image element that unfolding copies into the entry at `q`, or `None`
    /// where the entry lies in the padding.
    pub open spec fn spec_unfold_source(self, q: int) -> Option<int> {
        let y = self.entry_cy(q) * self.stride_h + self.entry_ky(q) * self.dilation_h - self.pad_h;
        let x = self.entry_cx(q) * self.stride_w + self.entry_kx(q) * self.dilation_w - self.pad_w;
        if 0 <= y < self.im_height && 0 <= x < self.im_width {
            Some(self.spec_image_index(self.entry_batch(q), self.entry_channel(q), y, x))
        } else {
            None
        }
    }

    /// The coordinates of an entry are recovered from its position.
    pub proof fn lemma_entry_of_index(self, ch: int, ky: int, kx: int, b: int, cy: int, cx: int)
        requires
            0 <= ch < self.im_channels,
            0 <= ky < self.kernel_h,
            0 <= kx < self.kernel_w,
            0 <= b < self.batch_size,
            0 <= cy < self.out_h,
            0 <= cx < self.out_w,
        ensures
            ({
                let q = self.spec_column_index(ch, ky, kx, b, cy, cx);
                &&& 0 <= q < self.columns_len()
                &&& self.entry_channel(q) == ch
                &&& self.entry_ky(q) == ky
                &&& self.entry_kx(q) == kx
                &&& self.entry_batch(q) == b
                &&& self.entry_cy(q) == cy
                &&& self.entry_cx(q) == cx
            }),
    {
        self.lemma_column_index_bound(ch, ky, kx, b, cy, cx);
        let row = (ch * self.kernel_h + ky) * self.kernel_w + kx;
        let col = (b * self.out_h + cy) * self.out_w + cx;
        lemma_split_digit(row, col, self.col_cols());
        lemma_split_digit(ch * self.kernel_h + ky, kx, self.kernel_w as int);
        lemma_split_digit(ch, ky, self.kernel_h as int);
        lemma_split_digit(b * self.out_h + cy, cx, self.out_w as int);
        lemma_split_digit(b, cy, self.out_h as int);
    }

    /// The position of an entry is recovered from its coordinates, and these
    /// are within their ranges.
    pub proof fn lemma_index_of_entry(self, q: int)
        requires
            self.kernel_h >= 1,
            self.kernel_w >= 1,
            0 <= q < self.columns_len(),
        ensures
            0 <= self.entry_channel(q) < self.im_channels,
            0 <= self.entry_ky(q) < self.kernel_h,
            0 <= self.entry_kx(q) < self.kernel_w,
            0 <= self.entry_batch(q) < self.batch_size,
            0 <= self.entry_cy(q) < self.out_h,
            0 <= self.entry_cx(q) < self.out_w,
            q == self.spec_column_index(
                self.entry_channel(q),
                self.entry_ky(q),
                self.entry_kx(q),
                self.entry_batch(q),
                self.entry_cy(q),
                self.entry_cx(q),
            ),
    {
        let rows = self.col_rows();
        let cols = self.col_cols();
        let c = self.im_channels as int;
        let kh = self.kernel_h as int;
        let kw = self.kernel_w as int;
        let n = self.batch_size as int;
        let oh = self.out_h as int;
        let ow = self.out_w as int;
        lemma_product_sign(c, kh);
        lemma_product_sign(c * kh, kw);
        lemma_product_sign(n, oh);
        lemma_product_sign(n * oh, ow);
        lemma_product_sign(rows, cols);
        assert(rows > 0 && cols > 0) by (nonlinear_arith)
            requires
                rows * cols > 0,
                rows >= 0,
                cols >= 0,
        ;
        assert(c > 0) by (nonlinear_arith)
            requires
                c * kh * kw > 0,
                c >= 0,
                kh >= 0,
                kw >= 0,
        ;
        assert(n > 0 && oh > 0 && ow > 0) by (nonlinear_arith)
            requires
                n * oh * ow > 0,
                n >= 0,
                oh >= 0,
                ow >= 0,
        ;
        let row = q / cols;
        let col = q % cols;
        lemma_fundamental_div_mod(q, cols);
        lemma_mul_is_commutative(cols, row);
        lemma_quotient_range(q, cols);
        lemma_quotient_bound(q, cols, rows);
        // the row splits into channel and kernel tap
        let r1 = row / kw;
        lemma_fundamental_div_mod(row, kw);
        lemma_mul_is_commutative(kw, r1);
        lemma_quotient_range(row, kw);
        lemma_quotient_bound(row, kw, c * kh);
        lemma_fundamental_div_mod(r1, kh);
        lemma_mul_is_commutative(kh, r1 / kh);
        lemma_quotient_range(r1, kh);
        lemma_quotient_bound(r1, kh, c);
        // the column splits into batch and grid position
        let c1 = col / ow;
        lemma_fundamental_div_mod(col, ow);
        lemma_mul_is_commutative(ow, c1);
        lemma_quotient_range(col, ow);
        lemma_quotient_bound(col, ow, n * oh);
        lemma_fundamental_div_mod(c1, oh);
        lemma_mul_is_commutative(oh, c1 / oh);
        lemma_quotient_range(c1, oh);
        lemma_quotient_bound(c1, oh, n);
    }

    /// The coordinates of an image element are recovered from its position.
    pub proof fn lemma_pixel_of_index(self, b: int, c: int, y: int, x: int)
        requires
            0 <= b < self.batch_size,
            0 <= c < self.im_channels,
            0 <= y < self.im_height,
            0 <= x < self.im_width,
        ensures
            ({
                let pos = self.spec_image_index(b, c, y, x);
                &&& 0 <= pos < self.image_len()
                &&& self.pixel_batch(pos) == b
                &&& self.pixel_channel(pos) == c
                &&& self.pixel_y(pos) == y
                &&& self.pixel_x(pos) == x
            }),
    {
        let n = self.batch_size as int;
        let ch = self.im_channels as int;
        let h = self.im_height as int;
        let w = self.im_width as int;
        let pos = self.spec_image_index(b, c, y, x);
        lemma_index_bound(b, n, c, ch);
        lemma_index_bound(b * ch + c, n * ch, y, h);
        lemma_index_bound((b * ch + c) * h + y, n * ch * h, x, w);
        lemma_split_digit((b * ch + c) * h + y, x, w);
        lemma_split_digit(b * ch + c, y, h);
        lemma_split_digit(b, c, ch);
        lemma_divide_twice(pos, w, h);
        lemma_divide_twice(pos, w * h, ch);
    }

    /// Every entry that col2im sums into an image element is one that unfolding
    /// fills from that element.
    pub proof fn lemma_tap_lands_on_pixel(self, pos: int, cy: int, cx: int)
        requires
            self.wf(),
            0 <= pos < self.image_len(),
            0 <= cy < self.out_h,
            0 <= cx < self.out_w,
            self.spec_tap_at(pos, cy, cx) is Some,
        ensures
            ({
                let q = self.spec_tap_at(pos, cy, cx)->0;
                &&& 0 <= q < self.columns_len()
                &&& self.spec_unfold_source(q) == Some(pos)
                &&& self.entry_cy(q) == cy
                &&& self.entry_cx(q) == cx
            }),
    {
        let ky = spec_axis_tap(
            self.eff_y(pos),
            cy,
            self.kernel_h as int,
            self.dilation_h as int,
            self.stride_h as int,
        )->0;
        let kx = spec_axis_tap(
            self.eff_x(pos),
            cx,
            self.kernel_w as int,
            self.dilation_w as int,
            self.stride_w as int,
        )->0;
        lemma_axis_tap_lands(
            self.eff_y(pos),
            cy,
            self.kernel_h as int,
            self.dilation_h as int,
            self.stride_h as int,
            ky,
        );
        lemma_axis_tap_lands(
            self.eff_x(pos),
            cx,
            self.kernel_w as int,
            self.dilation_w as int,
            self.stride_w as int,
            kx,
        );
        self.lemma_pixel_in_image(pos);
        self.lemma_entry_of_index(
            self.pixel_channel(pos),
            ky,
            kx,
            self.pixel_batch(pos),
            cy,
            cx,
        );
    }

    /// Every entry that unfolding fills from an image element is summed into
    /// that element by col2im, at the entry's own grid position.
    pub proof fn lemma_source_is_tapped(self, q: int)
        requires
            self.wf(),
            0 <= q < self.columns_len(),
            self.spec_unfold_source(q) is Some,
        ensures
            ({
                let pos = self.spec_unfold_source(q)->0;
                &&& 0 <= pos < self.image_len()
                &&& 0 <= self.entry_cy(q) < self.out_h
                &&& 0 <= self.entry_cx(q) < self.out_w
                &&& self.spec_tap_at(pos, self.entry_cy(q), self.entry_cx(q)) == Some(q)
            }),
    {
        self.lemma_index_of_entry(q);
        let y = self.entry_cy(q) * self.stride_h + self.entry_ky(q) * self.dilation_h - self.pad_h;
        let x = self.entry_cx(q) * self.stride_w + self.entry_kx(q) * self.dilation_w - self.pad_w;
        self.lemma_pixel_of_index(self.entry_batch(q), self.entry_channel(q), y, x);
        let pos = self.spec_unfold_source(q)->0;
        lemma_axis_tap_lands(
            self.eff_y(pos),
            self.entry_cy(q),
            self.kernel_h as int,
            self.dilation_h as int,
            self.stride_h as int,
            self.entry_ky(q),
        );
        lemma_axis_tap_lands(
            self.eff_x(pos),
            self.entry_cx(q),
            self.kernel_w as int,
            self.dilation_w as int,
            self.stride_w as int,
            self.entry_kx(q),
        );
    }
}

impl Col2ImArgs {
    /// The entries that a grid row adds are those of its positions that have a
    /// tap.
    pub proof fn lemma_row_taps_members(self, pos: int, cy: int, n: int, q: int)
        ensures
            self.spec_row_taps(pos, cy, n).contains(q) <==> exists|cx: int|
                0 <= cx < n && #[trigger] self.spec_tap_at(pos, cy, cx) == Some(q),
        decreases n,
    {
        let row = self.spec_row_taps(pos, cy, n);
        if n > 0 {
            let prev = self.spec_row_taps(pos, cy, n - 1);
            self.lemma_row_taps_members(pos, cy, n - 1, q);
            let last = self.spec_tap_at(pos, cy, n - 1);
            if row.contains(q) {
                let i = choose|i: int| 0 <= i < row.len() && row[i] == q;
                if i < prev.len() {
                    assert(prev[i] == q);
                    assert(prev.contains(q));
                    let cx = choose|cx: int|
                        0 <= cx < n - 1 && #[trigger] self.spec_tap_at(pos, cy, cx) == Some(q);
                    assert(0 <= cx < n && self.spec_tap_at(pos, cy, cx) == Some(q));
                } else {
                    assert(last == Some(q));
                }
            }
            if exists|cx: int| 0 <= cx < n && #[trigger] self.spec_tap_at(pos, cy, cx) == Some(q) {
                let cx = choose|cx: int|
                    0 <= cx < n && #[trigger] self.spec_tap_at(pos, cy, cx) == Some(q);
                if cx < n - 1 {
                    assert(prev.contains(q));
                    let i = choose|i: int| 0 <= i < prev.len() && prev[i] == q;
                    assert(row[i] == q);
                } else {
                    assert(row[row.len() - 1] == q);
                }
            }
        }
    }

    /// The entries that the first `m` grid rows add are those of their positions
    /// that have a tap.
    pub proof fn lemma_taps_upto_members(self, pos: int, m: int, q: int)
        ensures
            self.spec_taps_upto(pos, m).contains(q) <==> exists|cy: int, cx: int|
                0 <= cy < m && 0 <= cx < self.out_w && #[trigger] self.spec_tap_at(pos, cy, cx)
                    == Some(q),
        decreases m,
    {
        let all = self.spec_taps_upto(pos, m);
        if m > 0 {
            let prev = self.spec_taps_upto(pos, m - 1);
            let row = self.spec_row_taps(pos, m - 1, self.out_w as int);
            self.lemma_taps_upto_members(pos, m - 1, q);
            self.lemma_row_taps_members(pos, m - 1, self.out_w as int, q);
            if all.contains(q) {
                let i = choose|i: int| 0 <= i < all.len() && all[i] == q;
                if i < prev.len() {
                    assert(prev[i] == q);
                    assert(prev.contains(q));
                    let (cy, cx) = choose|cy: int, cx: int|
                        0 <= cy < m - 1 && 0 <= cx < self.out_w && #[trigger] self.spec_tap_at(
                            pos,
                            cy,
                            cx,
                        ) == Some(q);
                    assert(0 <= cy < m && self.spec_tap_at(pos, cy, cx) == Some(q));
                } else {
                    assert(row[i - prev.len()] == q);
                    assert(row.contains(q));
                    let cx = choose|cx: int|
                        0 <= cx < self.out_w && #[trigger] self.spec_tap_at(pos, m - 1, cx)
                            == Some(q);
                    assert(0 <= m - 1 < m && self.spec_tap_at(pos, m - 1, cx) == Some(q));
                }
            }
            if exists|cy: int, cx: int|
                0 <= cy < m && 0 <= cx < self.out_w && #[trigger] self.spec_tap_at(pos, cy, cx)
                    == Some(q) {
                let (cy, cx) = choose|cy: int, cx: int|
                    0 <= cy < m && 0 <= cx < self.out_w && #[trigger] self.spec_tap_at(
                        pos,
                        cy,
                        cx,
                    ) == Some(q);
                if cy < m - 1 {
                    assert(prev.contains(q));
                    let i = choose|i: int| 0 <= i < prev.len() && prev[i] == q;
                    assert(all[i] == q);
                } else {
                    assert(row.contains(q));
                    let i = choose|i: int| 0 <= i < row.len() && row[i] == q;
                    assert(all[prev.len() + i] == q);
                }
            }
        }
    }

    /// No entry is added twice by a grid row.
    pub proof fn lemma_row_taps_distinct(self, pos: int, cy: int, n: int)
        requires
            self.wf(),
            0 <= pos < self.image_len(),
            0 <= cy < self.out_h,
            n <= self.out_w,
        ensures
            self.spec_row_taps(pos, cy, n).no_duplicates(),
        decreases n,
    {
        if n > 0 {
            let prev = self.spec_row_taps(pos, cy, n - 1);
            self.lemma_row_taps_distinct(pos, cy, n - 1);
            match self.spec_tap_at(pos, cy, n - 1) {
                Some(t) => {
                    self.lemma_tap_lands_on_pixel(pos, cy, n - 1);
                    assert forall|i: int| 0 <= i < prev.len() implies prev[i] != t by {
                        if prev[i] == t {
                            assert(prev.contains(t));
                            self.lemma_row_taps_members(pos, cy, n - 1, t);
                            let cx = choose|cx: int|
                                0 <= cx < n - 1 && #[trigger] self.spec_tap_at(pos, cy, cx)
                                    == Some(t);
                            self.lemma_tap_lands_on_pixel(pos, cy, cx);
                        }
                    }
                },
                None => {},
            }
        }
    }

    /// No entry is added twice to an image element.
    pub proof fn lemma_taps_upto_distinct(self, pos: int, m: int)
        requires
            self.wf(),
            0 <= pos < self.image_len(),
            m <= self.out_h,
        ensures
            self.spec_taps_upto(pos, m).no_duplicates(),
        decreases m,
    {
        if m > 0 {
            let prev = self.spec_taps_upto(pos, m - 1);
            let row = self.spec_row_taps(pos, m - 1, self.out_w as int);
            self.lemma_taps_upto_distinct(pos, m - 1);
            self.lemma_row_taps_distinct(pos, m - 1, self.out_w as int);
            assert forall|i: int, j: int| 0 <= i < prev.len() && 0 <= j < row.len() implies prev[i]
                != row[j] by {
                let t = row[j];
                if prev[i] == t {
                    assert(prev.contains(t));
                    assert(row.contains(t));
                    self.lemma_taps_upto_members(pos, m - 1, t);
                    self.lemma_row_taps_members(pos, m - 1, self.out_w as int, t);
                    let (cy, cx) = choose|cy: int, cx: int|
                        0 <= cy < m - 1 && 0 <= cx < self.out_w && #[trigger] self.spec_tap_at(
                            pos,
                            cy,
                            cx,
                        ) == Some(t);
                    let cx2 = choose|cx: int|
                        0 <= cx < self.out_w && #[trigger] self.spec_tap_at(pos, m - 1, cx)
                            == Some(t);
                    self.lemma_tap_lands_on_pixel(pos, cy, cx);
                    self.lemma_tap_lands_on_pixel(pos, m - 1, cx2);
                }
            }
        }
    }

    /// Col2im is the adjoint of unfolding: the entries of the column buffer that
    /// it sums into an image element are exactly the entries that unfolding
    /// fills from that element, each of them once.
    pub proof fn lemma_taps_are_the_unfolded_entries(self, pos: int)
        requires
            self.wf(),
            0 <= pos < self.image_len(),
        ensures
            self.spec_taps(pos).no_duplicates(),
            forall|q: int|
                self.spec_taps(pos).contains(q) <==> 0 <= q < self.columns_len()
                    && #[trigger] self.spec_unfold_source(q) == Some(pos),
    {
        self.lemma_taps_upto_distinct(pos, self.out_h as int);
        assert forall|q: int|
            self.spec_taps(pos).contains(q) <==> 0 <= q < self.columns_len()
                && #[trigger] self.spec_unfold_source(q) == Some(pos) by {
            self.lemma_taps_upto_members(pos, self.out_h as int, q);
            if self.spec_taps(pos).contains(q) {
                let (cy, cx) = choose|cy: int, cx: int|
                    0 <= cy < self.out_h && 0 <= cx < self.out_w && #[trigger] self.spec_tap_at(
                        pos,
                        cy,
                        cx,
                    ) == Some(q);
                self.lemma_tap_lands_on_pixel(pos, cy, cx);
            }
            if 0 <= q < self.columns_len() && self.spec_unfold_source(q) == Some(pos) {
                self.lemma_source_is_tapped(q);
                assert(self.spec_tap_at(pos, self.entry_cy(q), self.entry_cx(q)) == Some(q));
            }
        }
    }

    /// Number of windows that reach the image element at `pos` through a tap.
    pub open spec fn spec_coverage(self, pos: int) -> nat {
        self.spec_taps(pos).len()
    }
}

/// The column buffer that unfolding makes of an image.
pub open spec fn spec_unfold(image: Seq<i64>, args: Col2ImArgs) -> Seq<i64> {
    Seq::new(
        args.columns_len() as nat,
        |q: int|
            match args.spec_unfold_source(q) {
                Some(pos) => image[pos],
                None => 0i64,
            },
    )
}

/// A sum of entries that all hold the same value.
proof fn lemma_gather_constant(columns: Seq<i64>, taps: Seq<int>, value: int)
    requires
        forall|i: int| 0 <= i < taps.len() ==> columns[#[trigger] taps[i]] == value,
    ensures
        spec_gather(columns, taps) == taps.len() * value,
    decreases taps.len(),
{
    if taps.len() > 0 {
        let rest = taps.drop_last();
        assert forall|i: int| 0 <= i < rest.len() implies columns[#[trigger] rest[i]] == value by {
            assert(rest[i] == taps[i]);
        }
        lemma_gather_constant(columns, rest, value);
        assert(taps[taps.len() - 1] == taps.last());
        assert(taps.len() * value == rest.len() * value + value) by (nonlinear_arith)
            requires
                taps.len() == rest.len() + 1,
        ;
    } else {
        assert(taps.len() * value == 0) by (nonlinear_arith)
            requires
                taps.len() == 0,
        ;
    }
}

/// Folding the unfolding of an image gives every element times the number of
/// windows that reach it.
pub proof fn lemma_fold_of_unfold(image: Seq<i64>, args: Col2ImArgs, pos: int)
    requires
        args.wf(),
        image.len() == args.image_len(),
        0 <= pos < args.image_len(),
    ensures
        spec_col2im_value(spec_unfold(image, args), args, pos) == args.spec_coverage(pos)
            * image[pos],
{
    let columns = spec_unfold(image, args);
    let taps = args.spec_taps(pos);
    args.lemma_taps_are_the_unfolded_entries(pos);
    assert forall|i: int| 0 <= i < taps.len() implies columns[#[trigger] taps[i]] == image[pos] by {
        let q = taps[i];
        assert(taps.contains(q));
        assert(0 <= q < args.columns_len() && args.spec_unfold_source(q) == Some(pos));
    }
    lemma_gather_constant(columns, taps, image[pos] as int);
}

/// Folding restores what unfolding took apart: where exactly one window reaches
/// an image element, folding the unfolded image gives that element back.
pub proof fn lemma_fold_restores_image(image: Seq<i64>, args: Col2ImArgs, pos: int)
    requires
        args.wf(),
        image.len() == args.image_len(),
        0 <= pos < args.image_len(),
        args.spec_coverage(pos) == 1,
    ensures
        spec_col2im_value(spec_unfold(image, args), args, pos) == image[pos],
{
    lemma_fold_of_unfold(image, args, pos);
}

/// Sum of those of the first `n` entries of the column buffer that unfolding
/// fills from the image element at `pos`.
pub open spec fn spec_scatter_sum(columns: Seq<i64>, args: Col2ImArgs, pos: int, n: int) -> int
    decreases n,
{
    if n <= 0 {
        0
    } else {
        spec_scatter_sum(columns, args, pos, n - 1) + if args.spec_unfold_source(n - 1) == Some(
            pos,
        ) {
            columns[n - 1] as int
        } else {
            0
        }
    }
}

/// Taking one position out of a sum takes its entry out.
proof fn lemma_gather_remove(columns: Seq<i64>, taps: Seq<int>, k: int)
    requires
        0 <= k < taps.len(),
    ensures
        spec_gather(columns, taps) == spec_gather(columns, taps.remove(k)) + columns[taps[k]],
    decreases taps.len(),
{
    if k == taps.len() - 1 {
        assert(taps.remove(k) =~= taps.drop_last());
    } else {
        lemma_gather_remove(columns, taps.drop_last(), k);
        assert(taps.remove(k).drop_last() =~= taps.drop_last().remove(k));
        assert(taps.remove(k).last() == taps.last());
    }
}

/// A sum over distinct positions that are exactly the entries below `n` filled
/// from the element at `pos` is the sum of those entries, in whatever order the
/// positions come.
proof fn lemma_gather_is_scatter_sum(
    columns: Seq<i64>,
    args: Col2ImArgs,
    pos: int,
    taps: Seq<int>,
    n: int,
)
    requires
        n >= 0,
        taps.no_duplicates(),
        forall|q: int|
            taps.contains(q) <==> 0 <= q < n && #[trigger] args.spec_unfold_source(q) == Some(pos),
    ensures
        spec_gather(columns, taps) == spec_scatter_sum(columns, args, pos, n),
    decreases n,
{
    if n == 0 {
        if taps.len() > 0 {
            assert(taps.contains(taps[0]));
            assert(args.spec_unfold_source(taps[0]) == Some(pos));
        }
    } else {
        let last = n - 1;
        if args.spec_unfold_source(last) == Some(pos) {
            assert(taps.contains(last));
            let k = choose|k: int| 0 <= k < taps.len() && taps[k] == last;
            let rest = taps.remove(k);
            lemma_gather_remove(columns, taps, k);
            assert forall|i: int, j: int| 0 <= i < rest.len() && 0 <= j < rest.len() && i != j implies rest[i]
                != rest[j] by {
                let i0 = if i < k {
                    i
                } else {
                    i + 1
                };
                let j0 = if j < k {
                    j
                } else {
                    j + 1
                };
                assert(rest[i] == taps[i0] && rest[j] == taps[j0]);
            }
            assert forall|q: int|
                rest.contains(q) <==> 0 <= q < last && #[trigger] args.spec_unfold_source(q)
                    == Some(pos) by {
                if rest.contains(q) {
                    let i = choose|i: int| 0 <= i < rest.len() && rest[i] == q;
                    let i0 = if i < k {
                        i
                    } else {
                        i + 1
                    };
                    assert(taps[i0] == q);
                    assert(taps.contains(q));
                    assert(q != last);
                }
                if 0 <= q < last && args.spec_unfold_source(q) == Some(pos) {
                    assert(taps.contains(q));
                    let i0 = choose|i: int| 0 <= i < taps.len() && taps[i] == q;
                    let i = if i0 < k {
                        i0
                    } else {
                        i0 - 1
                    };
                    assert(rest[i] == q);
                }
            }
            lemma_gather_is_scatter_sum(columns, args, pos, rest, last);
        } else {
            assert forall|q: int|
                taps.contains(q) <==> 0 <= q < last && #[trigger] args.spec_unfold_source(q)
                    == Some(pos) by {
                if taps.contains(q) {
                    assert(0 <= q < n && args.spec_unfold_source(q) == Some(pos));
                }
            }
            lemma_gather_is_scatter_sum(columns, args, pos, taps, last);
        }
    }
}

/// Col2im as the transpose of unfolding: the value it folds into an image
/// element is the sum of all entries of the column buffer that unfolding fills
/// from that element.
pub proof fn lemma_col2im_sums_the_unfolded_entries(columns: Seq<i64>, args: Col2ImArgs, pos: int)
    requires
        args.wf(),
        0 <= pos < args.image_len(),
    ensures
        spec_col2im_value(columns, args, pos) == spec_scatter_sum(
            columns,
            args,
            pos,
            args.columns_len(),
        ),
{
    args.lemma_taps_are_the_unfolded_entries(pos);
    args.lemma_rows_fit();
    lemma_product_sign(args.col_rows(), args.col_cols());
    lemma_gather_is_scatter_sum(columns, args, pos, args.spec_taps(pos), args.columns_len());
}

/// Inner product of the image that col2im folds out of `columns` with `image`,
/// over the first `m` image elements.
pub open spec fn spec_image_dot(columns: Seq<i64>, image: Seq<i64>, args: Col2ImArgs, m: int) -> int
    decreases m,
{
    if m <= 0 {
        0
    } else {
        spec_image_dot(columns, image, args, m - 1) + spec_col2im_value(columns, args, m - 1)
            * image[m - 1]
    }
}

/// Inner product of `columns` with the column buffer that unfolding makes of
/// `image`, over the first `n` entries.
pub open spec fn spec_columns_dot(
    columns: Seq<i64>,
    image: Seq<i64>,
    args: Col2ImArgs,
    n: int,
) -> int
    decreases n,
{
    if n <= 0 {
        0
    } else {
        spec_columns_dot(columns, image, args, n - 1) + columns[n - 1] * spec_unfold(
            image,
            args,
        )[n - 1]
    }
}

/// Inner product with `image`, over the first `m` image elements, of what the
/// first `n` entries of the column buffer add to each element.
spec fn spec_partial_dot(columns: Seq<i64>, image: Seq<i64>, args: Col2ImArgs, m: int, n: int) -> int
    decreases m,
{
    if m <= 0 {
        0
    } else {
        spec_partial_dot(columns, image, args, m - 1, n) + spec_scatter_sum(
            columns,
            args,
            m - 1,
            n,
        ) * image[m - 1]
    }
}

/// One more entry of the column buffer adds its value times the image element
/// that it is filled from, if that is among the first `m`.
proof fn lemma_partial_dot_step(
    columns: Seq<i64>,
    image: Seq<i64>,
    args: Col2ImArgs,
    m: int,
    n: int,
)
    requires
        n >= 0,
    ensures
        spec_partial_dot(columns, image, args, m, n + 1) == spec_partial_dot(
            columns,
            image,
            args,
            m,
            n,
        ) + match args.spec_unfold_source(n) {
            Some(pos) => if 0 <= pos < m {
                columns[n] * image[pos]
            } else {
                0
            },
            None => 0,
        },
    decreases m,
{
    if m > 0 {
        lemma_partial_dot_step(columns, image, args, m - 1, n);
        let before = spec_scatter_sum(columns, args, m - 1, n);
        let added = if args.spec_unfold_source(n) == Some(m - 1) {
            columns[n] as int
        } else {
            0
        };
        let x = image[m - 1] as int;
        assert(spec_scatter_sum(columns, args, m - 1, n + 1) == before + added);
        assert((before + added) * x == before * x + added * x) by (nonlinear_arith);
    }
}

/// Without entries the inner product is zero.
proof fn lemma_partial_dot_empty(columns: Seq<i64>, image: Seq<i64>, args: Col2ImArgs, m: int)
    ensures
        spec_partial_dot(columns, image, args, m, 0) == 0,
    decreases m,
{
    if m > 0 {
        lemma_partial_dot_empty(columns, image, args, m - 1);
    }
}

/// Summing over the image elements what the first `n` entries add to them is
/// summing over those entries what unfolding fills them with.
proof fn lemma_partial_dot_is_columns_dot(
    columns: Seq<i64>,
    image: Seq<i64>,
    args: Col2ImArgs,
    n: int,
)
    requires
        args.wf(),
        0 <= n <= args.columns_len(),
    ensures
        spec_partial_dot(columns, image, args, args.image_len(), n) == spec_columns_dot(
            columns,
            image,
            args,
            n,
        ),
    decreases n,
{
    if n == 0 {
        lemma_partial_dot_empty(columns, image, args, args.image_len());
    } else {
        lemma_partial_dot_is_columns_dot(columns, image, args, n - 1);
        lemma_partial_dot_step(columns, image, args, args.image_len(), n - 1);
        if args.spec_unfold_source(n - 1) is Some {
            args.lemma_source_is_tapped(n - 1);
        }
    }
}

/// The folded image, element by element, is what all entries add.
proof fn lemma_image_dot_is_partial_dot(
    columns: Seq<i64>,
    image: Seq<i64>,
    args: Col2ImArgs,
    m: int,
)
    requires
        args.wf(),
        m <= args.image_len(),
    ensures
        spec_image_dot(columns, image, args, m) == spec_partial_dot(
            columns,
            image,
            args,
            m,
            args.columns_len(),
        ),
    decreases m,
{
    if m > 0 {
        lemma_image_dot_is_partial_dot(columns, image, args, m - 1);
        lemma_col2im_sums_the_unfolded_entries(columns, args, m - 1);
    }
}

/// Col2im is the adjoint of unfolding: for every column buffer and every image,
/// the inner product of the folded buffer with the image is the inner product
/// of the buffer with the unfolded image.
pub proof fn lemma_col2im_is_the_adjoint(columns: Seq<i64>, image: Seq<i64>, args: Col2ImArgs)
    requires
        args.wf(),
    ensures
        spec_image_dot(columns, image, args, args.image_len()) == spec_columns_dot(
            columns,
            image,
            args,
            args.columns_len(),
        ),
{
    args.lemma_rows_fit();
    lemma_product_sign(args.col_rows(), args.col_cols());
    lemma_image_dot_is_partial_dot(columns, image, args, args.image_len());
    lemma_partial_dot_is_columns_dot(columns, image, args, args.columns_len());
}

/// The image element that unfolding copies into the entry at flat position `q`
/// of the column buffer, or `None` where the entry lies in the padding.
pub fn unfold_source(args: &Col2ImArgs, q: usize) -> (source: Option<usize>)
    requires
        args.wf(),
        args.image_len() <= usize::MAX,
        q < args.columns_len(),
    ensures
        args.spec_unfold_source(q as int) is Some ==> source == Some(
            args.spec_unfold_source(q as int)->0 as usize,
        ) && 0 <= args.spec_unfold_source(q as int)->0 < args.image_len(),
        args.spec_unfold_source(q as int) is None ==> source is None,
{
    proof {
        args.lemma_index_of_entry(q as int);
        args.lemma_column_index_bound(
            args.entry_channel(q as int),
            args.entry_ky(q as int),
            args.entry_kx(q as int),
            args.entry_batch(q as int),
            args.entry_cy(q as int),
            args.entry_cx(q as int),
        );
        args.lemma_rows_fit();
    }
    let cols: u128 = (args.batch_size as u128 * args.out_h as u128) * args.out_w as u128;
    let row: u128 = q as u128 / cols;
    let col: u128 = q as u128 % cols;
    let kx: u128 = row % args.kernel_w as u128;
    let ky: u128 = (row / args.kernel_w as u128) % args.kernel_h as u128;
    let ch: u128 = (row / args.kernel_w as u128) / args.kernel_h as u128;
    let cx: u128 = col % args.out_w as u128;
    let cy: u128 = (col / args.out_w as u128) % args.out_h as u128;
    let batch: u128 = (col / args.out_w as u128) / args.out_h as u128;
    proof {
        assert(cols == args.col_cols());
        assert(row == args.entry_row(q as int));
        assert(col == args.entry_col(q as int));
        assert(kx == args.entry_kx(q as int));
        assert(ky == args.entry_ky(q as int));
        assert(ch == args.entry_channel(q as int));
        assert(cx == args.entry_cx(q as int));
        assert(cy == args.entry_cy(q as int));
        assert(batch == args.entry_batch(q as int));
        lemma_product_sign(cy as int, args.stride_h as int);
        lemma_product_sign(ky as int, args.dilation_h as int);
        lemma_product_sign(cx as int, args.stride_w as int);
        lemma_product_sign(kx as int, args.dilation_w as int);
        assert(cy * args.stride_h <= 0xffff_ffff * 0xffff_ffff && ky * args.dilation_h
            <= 0xffff_ffff * 0xffff_ffff && cx * args.stride_w <= 0xffff_ffff * 0xffff_ffff && kx
            * args.dilation_w <= 0xffff_ffff * 0xffff_ffff) by (nonlinear_arith)
            requires
                0 <= cy <= 0xffff_ffff,
                0 <= ky <= 0xffff_ffff,
                0 <= cx <= 0xffff_ffff,
                0 <= kx <= 0xffff_ffff,
                0 <= args.stride_h <= 0xffff_ffff,
                0 <= args.dilation_h <= 0xffff_ffff,
                0 <= args.stride_w <= 0xffff_ffff,
                0 <= args.dilation_w <= 0xffff_ffff,
        ;
    }
    let y: i128 = (cy * args.stride_h as u128 + ky * args.dilation_h as u128) as i128
        - args.pad_h as i128;
    let x: i128 = (cx * args.stride_w as u128 + kx * args.dilation_w as u128) as i128
        - args.pad_w as i128;
    if y < 0 || y >= args.im_height as i128 || x < 0 || x >= args.im_width as i128 {
        return None;
    }
    proof {
        args.lemma_pixel_of_index(batch as int, ch as int, y as int, x as int);
        let n = args.batch_size as int;
        let c = args.im_channels as int;
        let h = args.im_height as int;
        lemma_index_bound(batch as int, n, ch as int, c);
        lemma_index_bound(batch * c + ch, n * c, y as int, h);
        lemma_index_bound((batch * c + ch) * h + y, n * c * h, x as int, args.im_width as int);
        let w = args.im_width as int;
        assert(n * c <= n * c * h <= n * c * h * w) by (nonlinear_arith)
            requires
                n * c >= 0,
                h >= 1,
                w >= 1,
        ;
    }
    let pos: u128 = ((batch * args.im_channels as u128 + ch) * args.im_height as u128 + y as u128)
        * args.im_width as u128 + x as u128;
    Some(pos as usize)
}

/// Unfolds an image into a column buffer: every entry holds the image element
/// that it is filled from, and zero where it lies in the padding.
pub fn unfold(image: &Vec<i64>, args: &Col2ImArgs) -> (columns: Vec<i64>)
    requires
        args.wf(),
        image@.len() == args.image_len(),
        args.columns_len() <= usize::MAX,
    ensures
        columns@ == spec_unfold(image@, *args),
{
    let image_len = image.len();
    let len = match args.columns_elements() {
        Some(len) => len,
        None => 0,
    };
    let mut columns: Vec<i64> = Vec::new();
    let mut q: usize = 0;
    while q < len
        invariant
            args.wf(),
            image@.len() == args.image_len(),
            args.image_len() <= usize::MAX,
            len == args.columns_len(),
            q <= len,
            columns@.len() == q,
            forall|k: int| 0 <= k < q ==> #[trigger] columns@[k] == spec_unfold(image@, *args)[k],
        decreases len - q,
    {
        let value = match unfold_source(args, q) {
            Some(pos) => image[pos],
            None => 0,
        };
        columns.push(value);
        q += 1;
    }
    assert(columns@ =~= spec_unfold(image@, *args));
    columns
}

} // verus!
