//! Conversions between packed RGB(A) images and planar YUV images, in fixed
//! point arithmetic.
//!
//! Every conversion walks the image row by row (or by pairs of rows for the
//! 4:2:0 layouts) and writes its output buffers in that order. Its contract
//! states the final content of each output buffer as the result of these
//! writes, applied in order to the buffer's initial content: where the
//! strides make two writes land on the same byte, the later one stays.
//! The arithmetic on 16 bits wraps where it overflows, as the release build
//! of these loops does.

use vstd::arithmetic::div_mod::{
    lemma_hoist_over_denominator, lemma_mod_add_multiples_vanish,
};
use vstd::arithmetic::mul::lemma_mul_inequality;
use vstd::prelude::*;

verus! {

/// The colour standard whose coefficients a conversion uses.
#[derive(Clone, Copy, Debug)]
pub enum YuvType {
    /// ITU-T T.871 (JPEG), full range.
    ItuT871,
    /// ITU-R BT.601-7, studio range.
    ItuR601,
    /// ITU-R BT.709-6, studio range.
    ItuR709,
}

/// Fixed point coefficients of an RGB to YUV conversion.
#[derive(Clone, Copy, Debug)]
pub struct RgbToYuvParam {
    /// Red weight of the luma, on 8 bits of fraction.
    pub r_factor: u8,
    /// Green weight of the luma, on 8 bits of fraction.
    pub g_factor: u8,
    /// Blue weight of the luma, on 8 bits of fraction.
    pub b_factor: u8,
    /// Scale of the blue difference, on 8 bits of fraction.
    pub cb_factor: u8,
    /// Scale of the red difference, on 8 bits of fraction.
    pub cr_factor: u8,
    /// Scale of the luma, on 7 bits of fraction.
    pub y_factor: u8,
    /// Offset of the luma.
    pub y_offset: u8,
}

/// Fixed point coefficients of a YUV to RGB conversion.
#[derive(Clone, Copy, Debug)]
pub struct YuvToRgbParam {
    /// Scale of U in the blue channel, on 6 bits of fraction.
    pub cb_factor: u8,
    /// Scale of V in the red channel, on 6 bits of fraction.
    pub cr_factor: u8,
    /// Scale of U in the green channel, on 7 bits of fraction.
    pub g_cb_factor: u8,
    /// Scale of V in the green channel, on 7 bits of fraction.
    pub g_cr_factor: u8,
    /// Scale of the luma, on 7 bits of fraction.
    pub y_factor: u8,
    /// Offset of the luma.
    pub y_offset: u8,
}

/// The RGB to YUV coefficients of each standard: the weights, rounded to the
/// nearest 1/256, with the green weight taken so that the three sum to one.
pub open spec fn spec_rgb_to_yuv_param(t: YuvType) -> RgbToYuvParam {
    match t {
        YuvType::ItuT871 => RgbToYuvParam {
            r_factor: 77,
            g_factor: 150,
            b_factor: 29,
            cb_factor: 144,
            cr_factor: 183,
            y_factor: 128,
            y_offset: 0,
        },
        YuvType::ItuR601 => RgbToYuvParam {
            r_factor: 77,
            g_factor: 150,
            b_factor: 29,
            cb_factor: 127,
            cr_factor: 160,
            y_factor: 110,
            y_offset: 16,
        },
        YuvType::ItuR709 => RgbToYuvParam {
            r_factor: 54,
            g_factor: 184,
            b_factor: 18,
            cb_factor: 121,
            cr_factor: 143,
            y_factor: 110,
            y_offset: 16,
        },
    }
}

/// The YUV to RGB coefficients of each standard.
pub open spec fn spec_yuv_to_rgb_param(t: YuvType) -> YuvToRgbParam {
    match t {
        YuvType::ItuT871 => YuvToRgbParam {
            cb_factor: 113,
            cr_factor: 90,
            g_cb_factor: 44,
            g_cr_factor: 91,
            y_factor: 128,
            y_offset: 0,
        },
        YuvType::ItuR601 => YuvToRgbParam {
            cb_factor: 129,
            cr_factor: 102,
            g_cb_factor: 50,
            g_cr_factor: 104,
            y_factor: 149,
            y_offset: 16,
        },
        YuvType::ItuR709 => YuvToRgbParam {
            cb_factor: 135,
            cr_factor: 115,
            g_cb_factor: 27,
            g_cr_factor: 68,
            y_factor: 149,
            y_offset: 16,
        },
    }
}

/// The RGB to YUV coefficients of `t`.
pub fn get_rgb_to_yuv_param(t: YuvType) -> (p: RgbToYuvParam)
    ensures
        p == spec_rgb_to_yuv_param(t),
{
    match t {
        YuvType::ItuT871 => RgbToYuvParam {
            r_factor: 77,
            g_factor: 150,
            b_factor: 29,
            cb_factor: 144,
            cr_factor: 183,
            y_factor: 128,
            y_offset: 0,
        },
        YuvType::ItuR601 => RgbToYuvParam {
            r_factor: 77,
            g_factor: 150,
            b_factor: 29,
            cb_factor: 127,
            cr_factor: 160,
            y_factor: 110,
            y_offset: 16,
        },
        YuvType::ItuR709 => RgbToYuvParam {
            r_factor: 54,
            g_factor: 184,
            b_factor: 18,
            cb_factor: 121,
            cr_factor: 143,
            y_factor: 110,
            y_offset: 16,
        },
    }
}

/// The YUV to RGB coefficients of `t`.
pub fn get_yuv_to_rgb_param(t: YuvType) -> (p: YuvToRgbParam)
    ensures
        p == spec_yuv_to_rgb_param(t),
{
    match t {
        YuvType::ItuT871 => YuvToRgbParam {
            cb_factor: 113,
            cr_factor: 90,
            g_cb_factor: 44,
            g_cr_factor: 91,
            y_factor: 128,
            y_offset: 0,
        },
        YuvType::ItuR601 => YuvToRgbParam {
            cb_factor: 129,
            cr_factor: 102,
            g_cb_factor: 50,
            g_cr_factor: 104,
            y_factor: 149,
            y_offset: 16,
        },
        YuvType::ItuR709 => YuvToRgbParam {
            cb_factor: 135,
            cr_factor: 115,
            g_cb_factor: 27,
            g_cr_factor: 68,
            y_factor: 149,
            y_offset: 16,
        },
    }
}

/// The three luma weights of every standard sum to one.
pub proof fn lemma_luma_weights_sum_to_one(t: YuvType)
    ensures
        spec_rgb_to_yuv_param(t).r_factor + spec_rgb_to_yuv_param(t).g_factor
            + spec_rgb_to_yuv_param(t).b_factor == 256,
{
}

// ---------------------------------------------------------------------------
// Per pixel formulas
// ---------------------------------------------------------------------------

/// Luma (before scaling) of the pixel `(r, g, b)`.
#[verifier::opaque]
pub open spec fn luma(p: RgbToYuvParam, r: u8, g: u8, b: u8) -> int {
    (p.r_factor * r + p.g_factor * g + p.b_factor * b) / 256
}

/// Luma of the pixel whose red byte is `s[o]`, green `s[o + 1]`, blue `s[o + 2]`.
pub open spec fn luma_at(p: RgbToYuvParam, s: Seq<u8>, o: int) -> int {
    luma(p, s[o], s[o + 1], s[o + 2])
}

/// The Y byte of a pixel of luma `l`.
pub open spec fn y_byte(p: RgbToYuvParam, l: int) -> u8 {
    ((l * p.y_factor) / 128 + p.y_offset) as u8
}

/// The chroma byte of one pixel whose colour difference is `d`, scaled by `f`;
/// the difference is taken on 16 bits.
pub open spec fn chroma_byte(f: u8, d: int) -> u8 {
    ((((d % 65536) * f) % 65536) / 256 + 128) as u8
}

/// The chroma byte of a block of four pixels whose colour differences sum to
/// `d`, scaled by `f`: the signed average (rounded down) is scaled, shifted
/// down by 8 bits (rounded down), offset by 128, and kept on 8 bits. The
/// differences are taken as signed integers, never wrapped on 16 bits: a
/// negative difference (blue or red below the luma) lowers the byte below
/// 128 instead of wrapping around.
pub open spec fn chroma_avg_byte(f: u8, d: int) -> u8 {
    ((((d / 4) * f) / 256 + 128) % 256) as u8
}

/// The coefficients sum to one.
pub open spec fn rgb_param_ok(p: RgbToYuvParam) -> bool {
    p.r_factor + p.g_factor + p.b_factor == 256
}

proof fn lemma_luma_bound(p: RgbToYuvParam, r: u8, g: u8, b: u8)
    requires
        rgb_param_ok(p),
    ensures
        0 <= p.r_factor * r + p.g_factor * g + p.b_factor * b <= 65280,
        0 <= luma(p, r, g, b) <= 255,
{
    reveal(luma);
    assert(0 <= p.r_factor * r + p.g_factor * g + p.b_factor * b <= 255 * (p.r_factor
        + p.g_factor + p.b_factor)) by (nonlinear_arith)
        requires
            0 <= r <= 255,
            0 <= g <= 255,
            0 <= b <= 255,
            0 <= p.r_factor,
            0 <= p.g_factor,
            0 <= p.b_factor,
    ;
}

fn exec_luma(p: &RgbToYuvParam, r: u8, g: u8, b: u8) -> (l: u32)
    requires
        rgb_param_ok(*p),
    ensures
        l == luma(*p, r, g, b),
        l <= 255,
{
    proof {
        lemma_luma_bound(*p, r, g, b);
        reveal(luma);
    }
    let pr = p.r_factor as u32;
    let pg = p.g_factor as u32;
    let pb = p.b_factor as u32;
    assert(pr * r as u32 <= 65025) by (nonlinear_arith)
        requires
            pr <= 255,
            r <= 255,
    ;
    assert(pg * g as u32 <= 65025) by (nonlinear_arith)
        requires
            pg <= 255,
            g <= 255,
    ;
    assert(pb * b as u32 <= 65025) by (nonlinear_arith)
        requires
            pb <= 255,
            b <= 255,
    ;
    (pr * r as u32 + pg * g as u32 + pb * b as u32) / 256
}

fn exec_y_byte(p: &RgbToYuvParam, l: u32) -> (y: u8)
    requires
        l <= 255,
    ensures
        y == y_byte(*p, l as int),
{
    let f = p.y_factor as u32;
    assert(l * f <= 65025) by (nonlinear_arith)
        requires
            l <= 255,
            f <= 255,
    ;
    ((l * f) / 128 + p.y_offset as u32) as u8
}

/// `d` is a colour difference already reduced modulo 2^16.
fn exec_chroma_byte(f: u8, d: u32) -> (c: u8)
    requires
        d < 65536,
    ensures
        c == chroma_byte(f, d as int),
{
    let ff = f as u32;
    assert(d * ff <= 65535 * 255) by (nonlinear_arith)
        requires
            d < 65536,
            ff <= 255,
    ;
    (((d * ff) % 65536) / 256 + 128) as u8
}

/// `d` is the sum of the colour differences of a block.
fn exec_chroma_avg_byte(f: u8, d: i32) -> (c: u8)
    requires
        -1020 <= d <= 1020,
    ensures
        c == chroma_avg_byte(f, d as int),
{
    let q: i32 = if d >= 0 {
        d / 4
    } else {
        -((3 - d) / 4)
    };
    assert(q as int == d as int / 4) by (nonlinear_arith)
        requires
            -1020 <= d <= 1020,
            d >= 0 ==> q == d / 4,
            d < 0 ==> q == -((3 - d) / 4),
    ;
    let ff = f as i32;
    assert(-255 * 255 <= q * ff <= 255 * 255) by (nonlinear_arith)
        requires
            -255 <= q <= 255,
            0 <= ff <= 255,
    ;
    let t: i32 = q * ff;
    let sh: i32 = if t >= 0 {
        t / 256
    } else {
        -((255 - t) / 256)
    };
    assert(sh as int == t as int / 256) by (nonlinear_arith)
        requires
            -65025 <= t <= 65025,
            t >= 0 ==> sh == t / 256,
            t < 0 ==> sh == -((255 - t) / 256),
    ;
    let x: i32 = sh + 128;
    let c: i32 = if x < 0 {
        x + 256
    } else if x >= 256 {
        x - 256
    } else {
        x
    };
    assert(c as int == x as int % 256);
    c as u8
}

// ---------------------------------------------------------------------------
// Writes applied in order
// ---------------------------------------------------------------------------

/// The buffer `buf` after `step(_, row, i)` for `i` in `0..cols`, in order.
pub open spec fn apply_row(
    buf: Seq<u8>,
    row: int,
    cols: nat,
    step: spec_fn(Seq<u8>, int, int) -> Seq<u8>,
) -> Seq<u8>
    decreases cols,
{
    if cols == 0 {
        buf
    } else {
        step(apply_row(buf, row, (cols - 1) as nat, step), row, cols - 1)
    }
}

/// The buffer `buf` after `apply_row(_, j, cols, step)` for `j` in `0..rows`, in order.
pub open spec fn apply_rows(
    buf: Seq<u8>,
    rows: nat,
    cols: nat,
    step: spec_fn(Seq<u8>, int, int) -> Seq<u8>,
) -> Seq<u8>
    decreases rows,
{
    if rows == 0 {
        buf
    } else {
        apply_row(apply_rows(buf, (rows - 1) as nat, cols, step), rows - 1, cols, step)
    }
}

proof fn lemma_apply_row_len(
    buf: Seq<u8>,
    row: int,
    cols: nat,
    step: spec_fn(Seq<u8>, int, int) -> Seq<u8>,
)
    requires
        forall|b: Seq<u8>, j: int, i: int| #[trigger] step(b, j, i).len() == b.len(),
    ensures
        apply_row(buf, row, cols, step).len() == buf.len(),
    decreases cols,
{
    if cols > 0 {
        lemma_apply_row_len(buf, row, (cols - 1) as nat, step);
    }
}

/// The write of `f(j, i)` at `j * stride + i`, for the pixel `(i, j)` of a
/// plane of `stride` bytes per line.
pub open spec fn grid_step(stride: int, f: spec_fn(int, int) -> u8) -> spec_fn(Seq<u8>, int, int) -> Seq<u8> {
    |b: Seq<u8>, j: int, i: int| b.update(j * stride + i, f(j, i))
}

proof fn lemma_grid_row(buf: Seq<u8>, row: int, cols: nat, stride: int, f: spec_fn(int, int) -> u8)
    requires
        0 <= row,
        cols <= stride,
        row * stride + cols <= buf.len(),
    ensures
        apply_row(buf, row, cols, grid_step(stride, f)).len() == buf.len(),
        forall|i: int|
            0 <= i < cols ==> #[trigger] apply_row(buf, row, cols, grid_step(stride, f))[row * stride
                + i] == f(row, i),
        forall|k: int|
            0 <= k < buf.len() && !(row * stride <= k < row * stride + cols) ==> #[trigger] apply_row(
                buf,
                row,
                cols,
                grid_step(stride, f),
            )[k] == buf[k],
    decreases cols,
{
    if cols > 0 {
        lemma_grid_row(buf, row, (cols - 1) as nat, stride, f);
        assert(row * stride >= 0) by (nonlinear_arith)
            requires
                row >= 0,
                stride >= 0,
        ;
    }
}

/// Law: when lines do not overlap, a plane written pixel by pixel holds, at
/// each pixel of the `cols` x `rows` image, the value of that pixel, and its
/// length does not change.
pub proof fn lemma_grid_rows(buf: Seq<u8>, rows: nat, cols: nat, stride: int, f: spec_fn(int, int) -> u8)
    requires
        cols <= stride,
        rows > 0 ==> (rows - 1) * stride + cols <= buf.len(),
    ensures
        apply_rows(buf, rows, cols, grid_step(stride, f)).len() == buf.len(),
        forall|j: int, i: int|
            0 <= j < rows && 0 <= i < cols ==> #[trigger] apply_rows(buf, rows, cols, grid_step(stride, f))[j
                * stride + i] == f(j, i),
    decreases rows,
{
    if rows > 0 {
        let prev = apply_rows(buf, (rows - 1) as nat, cols, grid_step(stride, f));
        if rows > 1 {
            lemma_mul_inequality(rows - 2, rows - 1, stride);
            assert((rows - 2) * stride + cols <= buf.len()) by (nonlinear_arith)
                requires
                    (rows - 2) * stride <= (rows - 1) * stride,
                    (rows - 1) * stride + cols <= buf.len(),
            ;
        }
        lemma_grid_rows(buf, (rows - 1) as nat, cols, stride, f);
        lemma_grid_row(prev, rows - 1, cols, stride, f);
        let r = apply_rows(buf, rows, cols, grid_step(stride, f));
        assert forall|j: int, i: int| 0 <= j < rows && 0 <= i < cols implies #[trigger] r[j * stride
            + i] == f(j, i) by {
            if j < rows - 1 {
                lemma_mul_inequality(j + 1, rows - 1, stride);
                assert(j * stride + i < (rows - 1) * stride) by (nonlinear_arith)
                    requires
                        (j + 1) * stride <= (rows - 1) * stride,
                        i < cols,
                        cols <= stride,
                ;
                assert(0 <= j * stride + i) by (nonlinear_arith)
                    requires
                        0 <= j,
                        0 <= i,
                        0 <= stride,
                ;
                assert(r[j * stride + i] == prev[j * stride + i]);
            }
        }
    }
}

/// The write of the three colour bytes `f(j, i)` of pixel `(i, j)` of an
/// image of four bytes per pixel, `stride` bytes per line, starting at
/// `base`; the fourth byte is left alone.
pub open spec fn rgb_grid_step(base: int, stride: int, f: spec_fn(int, int) -> (u8, u8, u8)) -> spec_fn(
    Seq<u8>,
    int,
    int,
) -> Seq<u8> {
    |b: Seq<u8>, j: int, i: int|
        {
            let o = base + j * stride + 4 * i;
            b.update(o, f(j, i).0).update(o + 1, f(j, i).1).update(o + 2, f(j, i).2)
        }
}

proof fn lemma_rgb_grid_row(
    buf: Seq<u8>,
    base: int,
    row: int,
    cols: nat,
    stride: int,
    f: spec_fn(int, int) -> (u8, u8, u8),
)
    requires
        0 <= row,
        0 <= base,
        4 * cols <= stride,
        base + row * stride + 4 * cols <= buf.len(),
    ensures
        apply_row(buf, row, cols, rgb_grid_step(base, stride, f)).len() == buf.len(),
        forall|i: int|
            #![trigger f(row, i)]
            0 <= i < cols ==> {
                let r = apply_row(buf, row, cols, rgb_grid_step(base, stride, f));
                let o = base + row * stride + 4 * i;
                &&& r[o] == f(row, i).0
                &&& r[o + 1] == f(row, i).1
                &&& r[o + 2] == f(row, i).2
            },
        forall|k: int|
            0 <= k < buf.len() && !(base + row * stride <= k < base + row * stride + 4 * cols)
                ==> #[trigger] apply_row(buf, row, cols, rgb_grid_step(base, stride, f))[k] == buf[k],
    decreases cols,
{
    if cols > 0 {
        lemma_rgb_grid_row(buf, base, row, (cols - 1) as nat, stride, f);
        assert(row * stride >= 0) by (nonlinear_arith)
            requires
                row >= 0,
                stride >= 0,
        ;
    }
}

/// Law: when lines do not overlap, an image written pixel by pixel holds,
/// at each pixel of the `cols` x `rows` rectangle, the three colour bytes of
/// that pixel, and its length does not change.
pub proof fn lemma_rgb_grid_rows(
    buf: Seq<u8>,
    base: int,
    rows: nat,
    cols: nat,
    stride: int,
    f: spec_fn(int, int) -> (u8, u8, u8),
)
    requires
        0 <= base,
        4 * cols <= stride,
        rows > 0 ==> base + (rows - 1) * stride + 4 * cols <= buf.len(),
    ensures
        apply_rows(buf, rows, cols, rgb_grid_step(base, stride, f)).len() == buf.len(),
        forall|j: int, i: int|
            #![trigger f(j, i)]
            0 <= j < rows && 0 <= i < cols ==> {
                let r = apply_rows(buf, rows, cols, rgb_grid_step(base, stride, f));
                let o = base + j * stride + 4 * i;
                &&& r[o] == f(j, i).0
                &&& r[o + 1] == f(j, i).1
                &&& r[o + 2] == f(j, i).2
            },
    decreases rows,
{
    if rows > 0 {
        let prev = apply_rows(buf, (rows - 1) as nat, cols, rgb_grid_step(base, stride, f));
        if rows > 1 {
            lemma_mul_inequality(rows - 2, rows - 1, stride);
        }
        lemma_rgb_grid_rows(buf, base, (rows - 1) as nat, cols, stride, f);
        lemma_rgb_grid_row(prev, base, rows - 1, cols, stride, f);
        let r = apply_rows(buf, rows, cols, rgb_grid_step(base, stride, f));
        assert forall|j: int, i: int| #![trigger f(j, i)] 0 <= j < rows && 0 <= i < cols implies {
            let o = base + j * stride + 4 * i;
            &&& r[o] == f(j, i).0
            &&& r[o + 1] == f(j, i).1
            &&& r[o + 2] == f(j, i).2
        } by {
            if j < rows - 1 {
                lemma_mul_inequality(j + 1, rows - 1, stride);
                assert(j * stride + 4 * i + 2 < (rows - 1) * stride) by (nonlinear_arith)
                    requires
                        (j + 1) * stride <= (rows - 1) * stride,
                        i < cols,
                        4 * cols <= stride,
                ;
                assert(0 <= j * stride + 4 * i) by (nonlinear_arith)
                    requires
                        0 <= j,
                        0 <= i,
                        0 <= stride,
                ;
                let o = base + j * stride + 4 * i;
                assert(r[o] == prev[o] && r[o + 1] == prev[o + 1] && r[o + 2] == prev[o + 2]);
            }
        }
    }
}

// ---------------------------------------------------------------------------
// RGBA to YUV 4:4:4
// ---------------------------------------------------------------------------

/// The byte offset of pixel `(x, y)` in an image of `bpp` bytes per pixel.
pub open spec fn px_offset(stride: int, bpp: int, y: int, x: int) -> int {
    y * stride + bpp * x
}

/// Writes of the Y plane of `rgba_to_yuv444_std` for pixel `(i, j)`.
pub open spec fn yuv444_y_step(p: RgbToYuvParam, rgba: Seq<u8>, rgba_stride: int, y_stride: int) -> spec_fn(
    Seq<u8>,
    int,
    int,
) -> Seq<u8> {
    |b: Seq<u8>, j: int, i: int|
        b.update(j * y_stride + i, y_byte(p, luma_at(p, rgba, px_offset(rgba_stride, 4, j, i))))
}

/// Writes of the U plane of `rgba_to_yuv444_std` for pixel `(i, j)`.
pub open spec fn yuv444_u_step(p: RgbToYuvParam, rgba: Seq<u8>, rgba_stride: int, u_stride: int) -> spec_fn(
    Seq<u8>,
    int,
    int,
) -> Seq<u8> {
    |b: Seq<u8>, j: int, i: int|
        {
            let o = px_offset(rgba_stride, 4, j, i);
            b.update(j * u_stride + i, chroma_byte(p.cb_factor, rgba[o + 2] - luma_at(p, rgba, o)))
        }
}

/// Writes of the V plane of `rgba_to_yuv444_std` for pixel `(i, j)`: the red
/// difference, scaled by `cr_factor`.
pub open spec fn yuv444_v_step(p: RgbToYuvParam, rgba: Seq<u8>, rgba_stride: int, v_stride: int) -> spec_fn(
    Seq<u8>,
    int,
    int,
) -> Seq<u8> {
    |b: Seq<u8>, j: int, i: int|
        {
            let o = px_offset(rgba_stride, 4, j, i);
            b.update(j * v_stride + i, chroma_byte(p.cr_factor, rgba[o] - luma_at(p, rgba, o)))
        }
}

/// Law: when the lines of the planes do not overlap, each Y, U and V byte
/// of the 4:4:4 conversion is computed from its own RGBA pixel alone.
pub proof fn lemma_yuv444_pixels(
    p: RgbToYuvParam,
    rgba: Seq<u8>,
    rgba_stride: int,
    y_stride: int,
    u_stride: int,
    v_stride: int,
    y0: Seq<u8>,
    u0: Seq<u8>,
    v0: Seq<u8>,
    width: nat,
    height: nat,
)
    requires
        width <= y_stride && width <= u_stride && width <= v_stride,
        height > 0 ==> (height - 1) * y_stride + width <= y0.len(),
        height > 0 ==> (height - 1) * u_stride + width <= u0.len(),
        height > 0 ==> (height - 1) * v_stride + width <= v0.len(),
    ensures
        forall|j: int, i: int|
            0 <= j < height && 0 <= i < width ==> {
                let o = px_offset(rgba_stride, 4, j, i);
                &&& #[trigger] apply_rows(y0, height, width, yuv444_y_step(p, rgba, rgba_stride, y_stride))[j
                    * y_stride + i] == y_byte(p, luma_at(p, rgba, o))
                &&& apply_rows(u0, height, width, yuv444_u_step(p, rgba, rgba_stride, u_stride))[j
                    * u_stride + i] == chroma_byte(p.cb_factor, rgba[o + 2] - luma_at(p, rgba, o))
                &&& apply_rows(v0, height, width, yuv444_v_step(p, rgba, rgba_stride, v_stride))[j
                    * v_stride + i] == chroma_byte(p.cr_factor, rgba[o] - luma_at(p, rgba, o))
            },
{
    let fy = |j: int, i: int| y_byte(p, luma_at(p, rgba, px_offset(rgba_stride, 4, j, i)));
    let fu = |j: int, i: int|
        chroma_byte(
            p.cb_factor,
            rgba[px_offset(rgba_stride, 4, j, i) + 2] - luma_at(p, rgba, px_offset(rgba_stride, 4, j, i)),
        );
    let fv = |j: int, i: int|
        chroma_byte(
            p.cr_factor,
            rgba[px_offset(rgba_stride, 4, j, i)] - luma_at(p, rgba, px_offset(rgba_stride, 4, j, i)),
        );
    assert(yuv444_y_step(p, rgba, rgba_stride, y_stride) =~= grid_step(y_stride, fy));
    assert(yuv444_u_step(p, rgba, rgba_stride, u_stride) =~= grid_step(u_stride, fu));
    assert(yuv444_v_step(p, rgba, rgba_stride, v_stride) =~= grid_step(v_stride, fv));
    lemma_grid_rows(y0, height, width, y_stride, fy);
    lemma_grid_rows(u0, height, width, u_stride, fu);
    lemma_grid_rows(v0, height, width, v_stride, fv);
}

/// Converts the RGBA pixel at `o` and writes its Y, U and V bytes at `yi`,
/// `ui` and `vi`.
#[allow(clippy::too_many_arguments)]
fn rgb_to_yuv444_px(
    p: &RgbToYuvParam,
    rgba: &[u8],
    o: usize,
    buffer_y: &mut [u8],
    yi: usize,
    buffer_u: &mut [u8],
    ui: usize,
    buffer_v: &mut [u8],
    vi: usize,
)
    requires
        rgb_param_ok(*p),
        o + 2 < rgba@.len(),
        yi < old(buffer_y)@.len(),
        ui < old(buffer_u)@.len(),
        vi < old(buffer_v)@.len(),
    ensures
        final(buffer_y)@ == old(buffer_y)@.update(yi as int, y_byte(*p, luma_at(*p, rgba@, o as int))),
        final(buffer_u)@ == old(buffer_u)@.update(
            ui as int,
            chroma_byte(p.cb_factor, rgba@[o + 2] - luma_at(*p, rgba@, o as int)),
        ),
        final(buffer_v)@ == old(buffer_v)@.update(
            vi as int,
            chroma_byte(p.cr_factor, rgba@[o as int] - luma_at(*p, rgba@, o as int)),
        ),
{
    let l = exec_luma(p, rgba[o], rgba[o + 1], rgba[o + 2]);
    buffer_y[yi] = exec_y_byte(p, l);
    let du = (65536 + rgba[o + 2] as u32 - l) % 65536;
    let dv = (65536 + rgba[o] as u32 - l) % 65536;
    proof {
        lemma_mod_add_multiples_vanish(rgba@[o + 2] - l, 65536);
        lemma_mod_add_multiples_vanish(rgba@[o as int] - l, 65536);
    }
    buffer_u[ui] = exec_chroma_byte(p.cb_factor, du);
    buffer_v[vi] = exec_chroma_byte(p.cr_factor, dv);
}

/// Converts a `width` x `height` RGBA image (4 bytes per pixel) to Y, U and V
/// planes of the same size.
#[allow(clippy::too_many_arguments)]
pub fn rgba_to_yuv444_std(
    width: usize,
    height: usize,
    buffer_rgba: &[u8],
    rgba_stride: usize,
    buffer_y: &mut [u8],
    buffer_u: &mut [u8],
    buffer_v: &mut [u8],
    y_stride: usize,
    u_stride: usize,
    v_stride: usize,
    yuv_type: YuvType,
)
    requires
        width > 0 && height > 0 ==> {
            &&& (height - 1) * rgba_stride + 4 * (width - 1) + 2 < buffer_rgba@.len()
            &&& (height - 1) * y_stride + width - 1 < old(buffer_y)@.len()
            &&& (height - 1) * u_stride + width - 1 < old(buffer_u)@.len()
            &&& (height - 1) * v_stride + width - 1 < old(buffer_v)@.len()
        },
    ensures
        final(buffer_y)@.len() == old(buffer_y)@.len(),
        final(buffer_u)@.len() == old(buffer_u)@.len(),
        final(buffer_v)@.len() == old(buffer_v)@.len(),
        final(buffer_y)@ == apply_rows(
            old(buffer_y)@,
            height as nat,
            width as nat,
            yuv444_y_step(spec_rgb_to_yuv_param(yuv_type), buffer_rgba@, rgba_stride as int, y_stride as int),
        ),
        final(buffer_u)@ == apply_rows(
            old(buffer_u)@,
            height as nat,
            width as nat,
            yuv444_u_step(spec_rgb_to_yuv_param(yuv_type), buffer_rgba@, rgba_stride as int, u_stride as int),
        ),
        final(buffer_v)@ == apply_rows(
            old(buffer_v)@,
            height as nat,
            width as nat,
            yuv444_v_step(spec_rgb_to_yuv_param(yuv_type), buffer_rgba@, rgba_stride as int, v_stride as int),
        ),
{
    let param = get_rgb_to_yuv_param(yuv_type);
    let ghost p = param;
    let ghost rgba = buffer_rgba@;
    let ghost sy = yuv444_y_step(p, rgba, rgba_stride as int, y_stride as int);
    let ghost su = yuv444_u_step(p, rgba, rgba_stride as int, u_stride as int);
    let ghost sv = yuv444_v_step(p, rgba, rgba_stride as int, v_stride as int);
    let ghost y0 = buffer_y@;
    let ghost u0 = buffer_u@;
    let ghost v0 = buffer_v@;
    let mut y: usize = 0;
    while y < height
        invariant
            y <= height,
            p == spec_rgb_to_yuv_param(yuv_type),
            param == p,
            rgba == buffer_rgba@,
            rgb_param_ok(p),
            sy == yuv444_y_step(p, rgba, rgba_stride as int, y_stride as int),
            su == yuv444_u_step(p, rgba, rgba_stride as int, u_stride as int),
            sv == yuv444_v_step(p, rgba, rgba_stride as int, v_stride as int),
            width > 0 && height > 0 ==> {
                &&& (height - 1) * rgba_stride + 4 * (width - 1) + 2 < buffer_rgba@.len()
                &&& (height - 1) * y_stride + width - 1 < y0.len()
                &&& (height - 1) * u_stride + width - 1 < u0.len()
                &&& (height - 1) * v_stride + width - 1 < v0.len()
            },
            buffer_y@.len() == y0.len(),
            buffer_u@.len() == u0.len(),
            buffer_v@.len() == v0.len(),
            buffer_y@ == apply_rows(y0, y as nat, width as nat, sy),
            buffer_u@ == apply_rows(u0, y as nat, width as nat, su),
            buffer_v@ == apply_rows(v0, y as nat, width as nat, sv),
        decreases height - y,
    {
        proof {
            lemma_mul_inequality(y as int, height - 1, rgba_stride as int);
            lemma_mul_inequality(y as int, height - 1, y_stride as int);
            lemma_mul_inequality(y as int, height - 1, u_stride as int);
            lemma_mul_inequality(y as int, height - 1, v_stride as int);
        }
        let mut x: usize = 0;
        while x < width
            invariant
                x <= width,
                y < height,
                p == spec_rgb_to_yuv_param(yuv_type),
                param == p,
                rgba == buffer_rgba@,
                rgb_param_ok(p),
                sy == yuv444_y_step(p, rgba, rgba_stride as int, y_stride as int),
                su == yuv444_u_step(p, rgba, rgba_stride as int, u_stride as int),
                sv == yuv444_v_step(p, rgba, rgba_stride as int, v_stride as int),
                y * rgba_stride <= (height - 1) * rgba_stride,
                y * y_stride <= (height - 1) * y_stride,
                y * u_stride <= (height - 1) * u_stride,
                y * v_stride <= (height - 1) * v_stride,
                width > 0 && height > 0 ==> {
                    &&& (height - 1) * rgba_stride + 4 * (width - 1) + 2 < buffer_rgba@.len()
                    &&& (height - 1) * y_stride + width - 1 < y0.len()
                    &&& (height - 1) * u_stride + width - 1 < u0.len()
                    &&& (height - 1) * v_stride + width - 1 < v0.len()
                },
                buffer_y@.len() == y0.len(),
                buffer_u@.len() == u0.len(),
                buffer_v@.len() == v0.len(),
                buffer_y@ == apply_row(apply_rows(y0, y as nat, width as nat, sy), y as int, x as nat, sy),
                buffer_u@ == apply_row(apply_rows(u0, y as nat, width as nat, su), y as int, x as nat, su),
                buffer_v@ == apply_row(apply_rows(v0, y as nat, width as nat, sv), y as int, x as nat, sv),
            decreases width - x,
        {
            assert((height - 1) * rgba_stride + 4 * (width - 1) + 2 < buffer_rgba@.len());
            assert(y * rgba_stride + 4 * x + 2 < buffer_rgba.len());
            let o = y * rgba_stride + 4 * x;
            assert(y * y_stride + x < buffer_y.len());
            assert(y * u_stride + x < buffer_u.len());
            assert(y * v_stride + x < buffer_v.len());
            let yi = y * y_stride + x;
            let ui = y * u_stride + x;
            let vi = y * v_stride + x;
            let ghost by = buffer_y@;
            let ghost bu = buffer_u@;
            let ghost bv = buffer_v@;
            rgb_to_yuv444_px(&param, buffer_rgba, o, buffer_y, yi, buffer_u, ui, buffer_v, vi);
            assert(buffer_y@ == sy(by, y as int, x as int));
            assert(buffer_u@ == su(bu, y as int, x as int));
            assert(buffer_v@ == sv(bv, y as int, x as int));
            x = x + 1;
        }
        y = y + 1;
    }
}


// ---------------------------------------------------------------------------
// RGB(A) to YUV 4:2:0 and NV12
// ---------------------------------------------------------------------------

/// Y byte of the pixel at `o`.
pub open spec fn y_px(p: RgbToYuvParam, rgb: Seq<u8>, o: int) -> u8 {
    y_byte(p, luma_at(p, rgb, o))
}

/// The four Y writes of the 2x2 block whose top left pixel is at `o1`, the
/// bottom left at `o2`, into the rows of the Y plane starting at `yi1` and `yi2`.
pub open spec fn y_block(
    buf: Seq<u8>,
    p: RgbToYuvParam,
    rgb: Seq<u8>,
    bpp: int,
    o1: int,
    o2: int,
    yi1: int,
    yi2: int,
) -> Seq<u8> {
    buf.update(yi1, y_px(p, rgb, o1)).update(yi1 + 1, y_px(p, rgb, o1 + bpp)).update(
        yi2,
        y_px(p, rgb, o2),
    ).update(yi2 + 1, y_px(p, rgb, o2 + bpp))
}

/// Sum of the blue differences (B - luma) of the 2x2 block at `o1` / `o2`.
pub open spec fn blue_diff_sum(p: RgbToYuvParam, rgb: Seq<u8>, bpp: int, o1: int, o2: int) -> int {
    (rgb[o1 + 2] - luma_at(p, rgb, o1)) + (rgb[o1 + bpp + 2] - luma_at(p, rgb, o1 + bpp)) + (rgb[o2
        + 2] - luma_at(p, rgb, o2)) + (rgb[o2 + bpp + 2] - luma_at(p, rgb, o2 + bpp))
}

/// Sum of the red differences (R - luma) of the 2x2 block at `o1` / `o2`.
pub open spec fn red_diff_sum(p: RgbToYuvParam, rgb: Seq<u8>, bpp: int, o1: int, o2: int) -> int {
    (rgb[o1] - luma_at(p, rgb, o1)) + (rgb[o1 + bpp] - luma_at(p, rgb, o1 + bpp)) + (rgb[o2]
        - luma_at(p, rgb, o2)) + (rgb[o2 + bpp] - luma_at(p, rgb, o2 + bpp))
}

/// The U byte of the 2x2 block at `o1` / `o2`.
pub open spec fn u_block(p: RgbToYuvParam, rgb: Seq<u8>, bpp: int, o1: int, o2: int) -> u8 {
    chroma_avg_byte(p.cb_factor, blue_diff_sum(p, rgb, bpp, o1, o2))
}

/// The V byte of the 2x2 block at `o1` / `o2`: the red differences, scaled
/// by `cr_factor`.
pub open spec fn v_block(p: RgbToYuvParam, rgb: Seq<u8>, bpp: int, o1: int, o2: int) -> u8 {
    chroma_avg_byte(p.cr_factor, red_diff_sum(p, rgb, bpp, o1, o2))
}

/// Offset of the top left pixel of block `(i, j)` of a 4:2:0 walk.
pub open spec fn block_top(stride: int, bpp: int, j: int, i: int) -> int {
    (2 * j) * stride + 2 * bpp * i
}

/// Offset of the bottom left pixel of block `(i, j)` of a 4:2:0 walk.
pub open spec fn block_bottom(stride: int, bpp: int, j: int, i: int) -> int {
    (2 * j + 1) * stride + 2 * bpp * i
}

/// Writes of the Y plane of a 4:2:0 conversion for block `(i, j)`.
pub open spec fn yuv420_y_step(p: RgbToYuvParam, rgb: Seq<u8>, bpp: int, rgb_stride: int, y_stride: int) -> spec_fn(
    Seq<u8>,
    int,
    int,
) -> Seq<u8> {
    |b: Seq<u8>, j: int, i: int|
        y_block(
            b,
            p,
            rgb,
            bpp,
            block_top(rgb_stride, bpp, j, i),
            block_bottom(rgb_stride, bpp, j, i),
            block_top(y_stride, 1, j, i),
            block_bottom(y_stride, 1, j, i),
        )
}

/// The writes of the four bytes `f(j, i)` of the 2x2 block `(i, j)` of a
/// plane of `stride` bytes per line: top left, top right, bottom left,
/// bottom right.
pub open spec fn block_step(stride: int, f: spec_fn(int, int) -> (u8, u8, u8, u8)) -> spec_fn(
    Seq<u8>,
    int,
    int,
) -> Seq<u8> {
    |b: Seq<u8>, j: int, i: int|
        {
            let t = (2 * j) * stride + 2 * i;
            let d = (2 * j + 1) * stride + 2 * i;
            b.update(t, f(j, i).0).update(t + 1, f(j, i).1).update(d, f(j, i).2).update(d + 1, f(j, i).3)
        }
}

proof fn lemma_block_row(
    buf: Seq<u8>,
    row: int,
    cols: nat,
    stride: int,
    f: spec_fn(int, int) -> (u8, u8, u8, u8),
)
    requires
        0 <= row,
        2 * cols <= stride,
        (2 * row + 1) * stride + 2 * cols <= buf.len(),
    ensures
        apply_row(buf, row, cols, block_step(stride, f)).len() == buf.len(),
        forall|i: int|
            #![trigger f(row, i)]
            0 <= i < cols ==> {
                let r = apply_row(buf, row, cols, block_step(stride, f));
                let t = (2 * row) * stride + 2 * i;
                let d = (2 * row + 1) * stride + 2 * i;
                &&& r[t] == f(row, i).0
                &&& r[t + 1] == f(row, i).1
                &&& r[d] == f(row, i).2
                &&& r[d + 1] == f(row, i).3
            },
        forall|k: int|
            0 <= k < buf.len() && !((2 * row) * stride <= k < (2 * row) * stride + 2 * cols) && !((2
                * row + 1) * stride <= k < (2 * row + 1) * stride + 2 * cols) ==> #[trigger] apply_row(
                buf,
                row,
                cols,
                block_step(stride, f),
            )[k] == buf[k],
    decreases cols,
{
    assert((2 * row + 1) * stride == (2 * row) * stride + stride) by (nonlinear_arith);
    assert((2 * row) * stride >= 0) by (nonlinear_arith)
        requires
            row >= 0,
            stride >= 0,
    ;
    if cols > 0 {
        lemma_block_row(buf, row, (cols - 1) as nat, stride, f);
    }
}

/// Law: when lines do not overlap, a plane written by 2x2 blocks holds, at
/// each of the four bytes of each block, the value the block gives it.
pub proof fn lemma_block_rows(
    buf: Seq<u8>,
    rows: nat,
    cols: nat,
    stride: int,
    f: spec_fn(int, int) -> (u8, u8, u8, u8),
)
    requires
        2 * cols <= stride,
        rows > 0 ==> (2 * rows - 1) * stride + 2 * cols <= buf.len(),
    ensures
        apply_rows(buf, rows, cols, block_step(stride, f)).len() == buf.len(),
        forall|j: int, i: int|
            #![trigger f(j, i)]
            0 <= j < rows && 0 <= i < cols ==> {
                let r = apply_rows(buf, rows, cols, block_step(stride, f));
                let t = (2 * j) * stride + 2 * i;
                let d = (2 * j + 1) * stride + 2 * i;
                &&& r[t] == f(j, i).0
                &&& r[t + 1] == f(j, i).1
                &&& r[d] == f(j, i).2
                &&& r[d + 1] == f(j, i).3
            },
    decreases rows,
{
    if rows > 0 {
        let prev = apply_rows(buf, (rows - 1) as nat, cols, block_step(stride, f));
        if rows > 1 {
            lemma_mul_inequality(2 * rows - 3, 2 * rows - 1, stride);
        }
        lemma_block_rows(buf, (rows - 1) as nat, cols, stride, f);
        lemma_block_row(prev, rows - 1, cols, stride, f);
        let r = apply_rows(buf, rows, cols, block_step(stride, f));
        assert forall|j: int, i: int| #![trigger f(j, i)] 0 <= j < rows && 0 <= i < cols implies {
            let t = (2 * j) * stride + 2 * i;
            let d = (2 * j + 1) * stride + 2 * i;
            &&& r[t] == f(j, i).0
            &&& r[t + 1] == f(j, i).1
            &&& r[d] == f(j, i).2
            &&& r[d + 1] == f(j, i).3
        } by {
            if j < rows - 1 {
                lemma_mul_inequality(2 * j + 2, 2 * (rows - 1), stride);
                assert((2 * j + 1) * stride + 2 * i + 1 < (2 * (rows - 1)) * stride) by (nonlinear_arith)
                    requires
                        (2 * j + 2) * stride <= (2 * (rows - 1)) * stride,
                        i < cols,
                        2 * cols <= stride,
                ;
                assert(0 <= (2 * j) * stride + 2 * i) by (nonlinear_arith)
                    requires
                        0 <= j,
                        0 <= i,
                        0 <= stride,
                ;
                assert((2 * j) * stride <= (2 * j + 1) * stride) by (nonlinear_arith)
                    requires
                        0 <= stride,
                ;
                assert((2 * (rows - 1)) * stride <= (2 * rows - 1) * stride) by (nonlinear_arith)
                    requires
                        0 <= stride,
                        rows >= 1,
                ;
                assert(2 * (rows - 1) + 1 == 2 * rows - 1);
                let t = (2 * j) * stride + 2 * i;
                let d = (2 * j + 1) * stride + 2 * i;
                assert(d + 1 < prev.len());
                assert(r[t] == prev[t]);
                assert(r[t + 1] == prev[t + 1]);
                assert(r[d] == prev[d]);
                assert(r[d + 1] == prev[d + 1]);
            }
        }
    }
}

/// Writes of the U plane of a 4:2:0 conversion for block `(i, j)`.
pub open spec fn yuv420_u_step(p: RgbToYuvParam, rgb: Seq<u8>, bpp: int, rgb_stride: int, u_stride: int) -> spec_fn(
    Seq<u8>,
    int,
    int,
) -> Seq<u8> {
    |b: Seq<u8>, j: int, i: int|
        b.update(
            j * u_stride + i,
            u_block(p, rgb, bpp, block_top(rgb_stride, bpp, j, i), block_bottom(rgb_stride, bpp, j, i)),
        )
}

/// Writes of the V plane of a 4:2:0 conversion for block `(i, j)`.
pub open spec fn yuv420_v_step(p: RgbToYuvParam, rgb: Seq<u8>, bpp: int, rgb_stride: int, v_stride: int) -> spec_fn(
    Seq<u8>,
    int,
    int,
) -> Seq<u8> {
    |b: Seq<u8>, j: int, i: int|
        b.update(
            j * v_stride + i,
            v_block(p, rgb, bpp, block_top(rgb_stride, bpp, j, i), block_bottom(rgb_stride, bpp, j, i)),
        )
}

/// Writes of the interleaved UV plane of an NV12 conversion for block `(i, j)`.
pub open spec fn nv12_uv_step(p: RgbToYuvParam, rgb: Seq<u8>, rgb_stride: int, uv_stride: int) -> spec_fn(
    Seq<u8>,
    int,
    int,
) -> Seq<u8> {
    |b: Seq<u8>, j: int, i: int|
        {
            let o1 = block_top(rgb_stride, 4, j, i);
            let o2 = block_bottom(rgb_stride, 4, j, i);
            b.update(j * uv_stride + 2 * i, u_block(p, rgb, 4, o1, o2)).update(
                j * uv_stride + 2 * i + 1,
                v_block(p, rgb, 4, o1, o2),
            )
        }
}

/// The four luma bytes of block `(i, j)` of a 4:2:0 conversion.
pub open spec fn yuv420_block_luma(p: RgbToYuvParam, rgb: Seq<u8>, bpp: int, rgb_stride: int, j: int, i: int) -> (
    u8,
    u8,
    u8,
    u8,
) {
    let o1 = block_top(rgb_stride, bpp, j, i);
    let o2 = block_bottom(rgb_stride, bpp, j, i);
    (y_px(p, rgb, o1), y_px(p, rgb, o1 + bpp), y_px(p, rgb, o2), y_px(p, rgb, o2 + bpp))
}

/// The U and V bytes of block `(i, j)` of a 4:2:0 conversion.
pub open spec fn yuv420_block_chroma(p: RgbToYuvParam, rgb: Seq<u8>, bpp: int, rgb_stride: int, j: int, i: int) -> (
    u8,
    u8,
) {
    let o1 = block_top(rgb_stride, bpp, j, i);
    let o2 = block_bottom(rgb_stride, bpp, j, i);
    (u_block(p, rgb, bpp, o1, o2), v_block(p, rgb, bpp, o1, o2))
}

/// Law: when the lines of the planes do not overlap, the 4:2:0 conversion
/// gives each pixel of each 2x2 block the luma of that pixel, and the
/// block's U and V bytes are computed from the block's four pixels alone.
pub proof fn lemma_yuv420_pixels(
    p: RgbToYuvParam,
    rgb: Seq<u8>,
    bpp: int,
    rgb_stride: int,
    y_stride: int,
    u_stride: int,
    v_stride: int,
    y0: Seq<u8>,
    u0: Seq<u8>,
    v0: Seq<u8>,
    width: int,
    height: int,
)
    requires
        width >= 0,
        height >= 0,
        2 * (width / 2) <= y_stride,
        width / 2 <= u_stride,
        width / 2 <= v_stride,
        height / 2 > 0 ==> (2 * (height / 2) - 1) * y_stride + 2 * (width / 2) <= y0.len(),
        height / 2 > 0 ==> (height / 2 - 1) * u_stride + width / 2 <= u0.len(),
        height / 2 > 0 ==> (height / 2 - 1) * v_stride + width / 2 <= v0.len(),
    ensures
        forall|j: int, i: int|
            #![trigger yuv420_block_luma(p, rgb, bpp, rgb_stride, j, i)]
            0 <= j < height / 2 && 0 <= i < width / 2 ==> {
                let ry = apply_rows(y0, (height / 2) as nat, (width / 2) as nat, yuv420_y_step(p, rgb, bpp, rgb_stride, y_stride));
                let ru = apply_rows(u0, (height / 2) as nat, (width / 2) as nat, yuv420_u_step(p, rgb, bpp, rgb_stride, u_stride));
                let rv = apply_rows(v0, (height / 2) as nat, (width / 2) as nat, yuv420_v_step(p, rgb, bpp, rgb_stride, v_stride));
                let l = yuv420_block_luma(p, rgb, bpp, rgb_stride, j, i);
                let c = yuv420_block_chroma(p, rgb, bpp, rgb_stride, j, i);
                let t = (2 * j) * y_stride + 2 * i;
                let d = (2 * j + 1) * y_stride + 2 * i;
                &&& ry[t] == l.0
                &&& ry[t + 1] == l.1
                &&& ry[d] == l.2
                &&& ry[d + 1] == l.3
                &&& ru[j * u_stride + i] == c.0
                &&& rv[j * v_stride + i] == c.1
            },
{
    let rows = (height / 2) as nat;
    let cols = (width / 2) as nat;
    let fy = |j: int, i: int| yuv420_block_luma(p, rgb, bpp, rgb_stride, j, i);
    let fu = |j: int, i: int| yuv420_block_chroma(p, rgb, bpp, rgb_stride, j, i).0;
    let fv = |j: int, i: int| yuv420_block_chroma(p, rgb, bpp, rgb_stride, j, i).1;
    assert(yuv420_y_step(p, rgb, bpp, rgb_stride, y_stride) =~= block_step(y_stride, fy));
    assert(yuv420_u_step(p, rgb, bpp, rgb_stride, u_stride) =~= grid_step(u_stride, fu));
    assert(yuv420_v_step(p, rgb, bpp, rgb_stride, v_stride) =~= grid_step(v_stride, fv));
    lemma_block_rows(y0, rows, cols, y_stride, fy);
    lemma_grid_rows(u0, rows, cols, u_stride, fu);
    lemma_grid_rows(v0, rows, cols, v_stride, fv);
    assert forall|j: int, i: int|
        #![trigger yuv420_block_luma(p, rgb, bpp, rgb_stride, j, i)]
        0 <= j < height / 2 && 0 <= i < width / 2 implies {
            let ry = apply_rows(y0, rows, cols, yuv420_y_step(p, rgb, bpp, rgb_stride, y_stride));
            let ru = apply_rows(u0, rows, cols, yuv420_u_step(p, rgb, bpp, rgb_stride, u_stride));
            let rv = apply_rows(v0, rows, cols, yuv420_v_step(p, rgb, bpp, rgb_stride, v_stride));
            let l = yuv420_block_luma(p, rgb, bpp, rgb_stride, j, i);
            let c = yuv420_block_chroma(p, rgb, bpp, rgb_stride, j, i);
            let t = (2 * j) * y_stride + 2 * i;
            let d = (2 * j + 1) * y_stride + 2 * i;
            &&& ry[t] == l.0
            &&& ry[t + 1] == l.1
            &&& ry[d] == l.2
            &&& ry[d + 1] == l.3
            &&& ru[j * u_stride + i] == c.0
            &&& rv[j * v_stride + i] == c.1
        } by {
        assert(fy(j, i) == yuv420_block_luma(p, rgb, bpp, rgb_stride, j, i));
        assert(fu(j, i) == yuv420_block_chroma(p, rgb, bpp, rgb_stride, j, i).0);
        assert(fv(j, i) == yuv420_block_chroma(p, rgb, bpp, rgb_stride, j, i).1);
    }
}

/// The buffers that a 4:2:0 walk of a `width` x `height` image reads and
/// writes are long enough: `rows` rows of `cols` bytes per pixel pair are
/// read or written with a stride of `stride` (a 4:2:0 walk reads and writes
/// luma and RGB by pairs of rows).
pub open spec fn fits_pairs(len: int, width: int, height: int, stride: int, pair_bytes: int, last_byte: int) -> bool {
    width / 2 > 0 && height / 2 > 0 ==> (2 * (height / 2) - 1) * stride + pair_bytes * (
    width / 2 - 1) + last_byte < len
}

/// Like `fits_pairs` for a plane that has one row per pair of image rows.
pub open spec fn fits_halves(len: int, width: int, height: int, stride: int, pair_bytes: int, last_byte: int) -> bool {
    width / 2 > 0 && height / 2 > 0 ==> (height / 2 - 1) * stride + pair_bytes * (width / 2 - 1)
        + last_byte < len
}

/// Writes at `yi` the Y byte of the pixel at `o` and gives back its luma.
fn write_luma(p: &RgbToYuvParam, rgb: &[u8], o: usize, buffer_y: &mut [u8], yi: usize) -> (l: u32)
    requires
        rgb_param_ok(*p),
        o + 2 < rgb@.len(),
        yi < old(buffer_y)@.len(),
    ensures
        l == luma_at(*p, rgb@, o as int),
        l <= 255,
        final(buffer_y)@ == old(buffer_y)@.update(yi as int, y_px(*p, rgb@, o as int)),
{
    let l = exec_luma(p, rgb[o], rgb[o + 1], rgb[o + 2]);
    buffer_y[yi] = exec_y_byte(p, l);
    l
}

/// Converts the 2x2 block at `o1` / `o2`: writes its four Y bytes and gives
/// back its U and V bytes.
#[allow(clippy::too_many_arguments)]
#[verifier::spinoff_prover]
#[verifier::rlimit(40)]
fn rgb_to_yuv420_block(
    p: &RgbToYuvParam,
    rgb: &[u8],
    bpp: usize,
    o1: usize,
    o2: usize,
    buffer_y: &mut [u8],
    yi1: usize,
    yi2: usize,
) -> (uv: (u8, u8))
    requires
        rgb_param_ok(*p),
        bpp == 3 || bpp == 4,
        o1 + bpp + 2 < rgb@.len(),
        o2 + bpp + 2 < rgb@.len(),
        yi1 + 1 < old(buffer_y)@.len(),
        yi2 + 1 < old(buffer_y)@.len(),
    ensures
        final(buffer_y)@ == y_block(
            old(buffer_y)@,
            *p,
            rgb@,
            bpp as int,
            o1 as int,
            o2 as int,
            yi1 as int,
            yi2 as int,
        ),
        uv.0 == u_block(*p, rgb@, bpp as int, o1 as int, o2 as int),
        uv.1 == v_block(*p, rgb@, bpp as int, o1 as int, o2 as int),
{
    assert(o1 + bpp + 2 < rgb.len() && o2 + bpp + 2 < rgb.len());
    assert(yi1 + 1 < buffer_y.len() && yi2 + 1 < buffer_y.len());
    let l1 = write_luma(p, rgb, o1, buffer_y, yi1);
    let l2 = write_luma(p, rgb, o1 + bpp, buffer_y, yi1 + 1);
    let l3 = write_luma(p, rgb, o2, buffer_y, yi2);
    let l4 = write_luma(p, rgb, o2 + bpp, buffer_y, yi2 + 1);
    let sb = rgb[o1 + 2] as i32 + rgb[o1 + bpp + 2] as i32 + rgb[o2 + 2] as i32 + rgb[o2 + bpp
        + 2] as i32;
    let sr = rgb[o1] as i32 + rgb[o1 + bpp] as i32 + rgb[o2] as i32 + rgb[o2 + bpp] as i32;
    let sl = l1 as i32 + l2 as i32 + l3 as i32 + l4 as i32;
    let du = sb - sl;
    let dv = sr - sl;
    let u = exec_chroma_avg_byte(p.cb_factor, du);
    let v = exec_chroma_avg_byte(p.cr_factor, dv);
    (u, v)
}

proof fn lemma_pairs_index(len: int, width: int, height: int, stride: int, pb: int, lb: int, j: int, i: int)
    requires
        fits_pairs(len, width, height, stride, pb, lb),
        0 <= j < height / 2,
        0 <= i < width / 2,
        stride >= 0,
        pb >= 0,
    ensures
        (2 * j + 1) * stride + pb * i + lb < len,
        (2 * j) * stride <= (2 * j + 1) * stride,
{
    lemma_mul_inequality(2 * j + 1, 2 * (height / 2) - 1, stride);
    lemma_mul_inequality(2 * j, 2 * j + 1, stride);
    lemma_mul_inequality(i, width / 2 - 1, pb);
    assert(pb * i == i * pb) by (nonlinear_arith);
    assert(pb * (width / 2 - 1) == (width / 2 - 1) * pb) by (nonlinear_arith);
}

proof fn lemma_halves_index(len: int, width: int, height: int, stride: int, pb: int, lb: int, j: int, i: int)
    requires
        fits_halves(len, width, height, stride, pb, lb),
        0 <= j < height / 2,
        0 <= i < width / 2,
        stride >= 0,
        pb >= 0,
    ensures
        j * stride + pb * i + lb < len,
{
    lemma_mul_inequality(j, height / 2 - 1, stride);
    lemma_mul_inequality(i, width / 2 - 1, pb);
    assert(pb * i == i * pb) by (nonlinear_arith);
    assert(pb * (width / 2 - 1) == (width / 2 - 1) * pb) by (nonlinear_arith);
}

/// Converts block `(i, j)` of a 4:2:0 walk into the three planes.
#[allow(clippy::too_many_arguments)]
fn rgb_to_yuv420_step(
    p: &RgbToYuvParam,
    buffer_rgb: &[u8],
    rgb_stride: usize,
    bpp: usize,
    buffer_y: &mut [u8],
    buffer_u: &mut [u8],
    buffer_v: &mut [u8],
    y_stride: usize,
    u_stride: usize,
    v_stride: usize,
    j: usize,
    i: usize,
)
    requires
        rgb_param_ok(*p),
        bpp == 3 || bpp == 4,
        2 * j + 1 <= usize::MAX,
        (2 * j + 1) * rgb_stride + 2 * bpp * i + bpp + 2 < buffer_rgb@.len(),
        (2 * j) * rgb_stride <= (2 * j + 1) * rgb_stride,
        (2 * j + 1) * y_stride + 2 * i + 1 < old(buffer_y)@.len(),
        (2 * j) * y_stride <= (2 * j + 1) * y_stride,
        j * u_stride + i < old(buffer_u)@.len(),
        j * v_stride + i < old(buffer_v)@.len(),
    ensures
        final(buffer_y)@ == yuv420_y_step(*p, buffer_rgb@, bpp as int, rgb_stride as int, y_stride as int)(
            old(buffer_y)@,
            j as int,
            i as int,
        ),
        final(buffer_u)@ == yuv420_u_step(*p, buffer_rgb@, bpp as int, rgb_stride as int, u_stride as int)(
            old(buffer_u)@,
            j as int,
            i as int,
        ),
        final(buffer_v)@ == yuv420_v_step(*p, buffer_rgb@, bpp as int, rgb_stride as int, v_stride as int)(
            old(buffer_v)@,
            j as int,
            i as int,
        ),
{
    assert((2 * j + 1) * rgb_stride + 2 * bpp * i + bpp + 2 < buffer_rgb.len());
    assert((2 * j + 1) * y_stride + 2 * i + 1 < buffer_y.len());
    assert(j * u_stride + i < buffer_u.len());
    assert(j * v_stride + i < buffer_v.len());
    let y = 2 * j;
    let o1 = y * rgb_stride + 2 * bpp * i;
    let o2 = (y + 1) * rgb_stride + 2 * bpp * i;
    let yi1 = y * y_stride + 2 * i;
    let yi2 = (y + 1) * y_stride + 2 * i;
    let (u, v) = rgb_to_yuv420_block(p, buffer_rgb, bpp, o1, o2, buffer_y, yi1, yi2);
    buffer_u[j * u_stride + i] = u;
    buffer_v[j * v_stride + i] = v;
}

/// Converts a `width` x `height` image of `bpp` bytes per pixel to 4:2:0
/// planes: each 2x2 block of pixels gives four Y bytes and one U and one V
/// byte, from the sums of its colour differences. An odd last row or column
/// is left out.
#[allow(clippy::too_many_arguments)]
fn rgb_to_yuv420_planes(
    width: usize,
    height: usize,
    buffer_rgb: &[u8],
    rgb_stride: usize,
    bpp: usize,
    buffer_y: &mut [u8],
    buffer_u: &mut [u8],
    buffer_v: &mut [u8],
    y_stride: usize,
    u_stride: usize,
    v_stride: usize,
    yuv_type: YuvType,
)
    requires
        bpp == 3 || bpp == 4,
        fits_pairs(buffer_rgb@.len() as int, width as int, height as int, rgb_stride as int, 2 * bpp, bpp + 2),
        fits_pairs(old(buffer_y)@.len() as int, width as int, height as int, y_stride as int, 2, 1),
        fits_halves(old(buffer_u)@.len() as int, width as int, height as int, u_stride as int, 1, 0),
        fits_halves(old(buffer_v)@.len() as int, width as int, height as int, v_stride as int, 1, 0),
    ensures
        final(buffer_y)@.len() == old(buffer_y)@.len(),
        final(buffer_u)@.len() == old(buffer_u)@.len(),
        final(buffer_v)@.len() == old(buffer_v)@.len(),
        final(buffer_y)@ == apply_rows(
            old(buffer_y)@,
            (height / 2) as nat,
            (width / 2) as nat,
            yuv420_y_step(spec_rgb_to_yuv_param(yuv_type), buffer_rgb@, bpp as int, rgb_stride as int, y_stride as int),
        ),
        final(buffer_u)@ == apply_rows(
            old(buffer_u)@,
            (height / 2) as nat,
            (width / 2) as nat,
            yuv420_u_step(spec_rgb_to_yuv_param(yuv_type), buffer_rgb@, bpp as int, rgb_stride as int, u_stride as int),
        ),
        final(buffer_v)@ == apply_rows(
            old(buffer_v)@,
            (height / 2) as nat,
            (width / 2) as nat,
            yuv420_v_step(spec_rgb_to_yuv_param(yuv_type), buffer_rgb@, bpp as int, rgb_stride as int, v_stride as int),
        ),
{
    let param = get_rgb_to_yuv_param(yuv_type);
    let ghost p = param;
    let ghost rgb = buffer_rgb@;
    let ghost sy = yuv420_y_step(p, rgb, bpp as int, rgb_stride as int, y_stride as int);
    let ghost su = yuv420_u_step(p, rgb, bpp as int, rgb_stride as int, u_stride as int);
    let ghost sv = yuv420_v_step(p, rgb, bpp as int, rgb_stride as int, v_stride as int);
    let ghost y0 = buffer_y@;
    let ghost u0 = buffer_u@;
    let ghost v0 = buffer_v@;
    let h2 = height / 2;
    let w2 = width / 2;
    let mut j: usize = 0;
    while j < h2
        invariant
            j <= h2,
            h2 == height / 2,
            w2 == width / 2,
            bpp == 3 || bpp == 4,
            param == p,
            rgb == buffer_rgb@,
            rgb_param_ok(p),
            p == spec_rgb_to_yuv_param(yuv_type),
            sy == yuv420_y_step(p, rgb, bpp as int, rgb_stride as int, y_stride as int),
            su == yuv420_u_step(p, rgb, bpp as int, rgb_stride as int, u_stride as int),
            sv == yuv420_v_step(p, rgb, bpp as int, rgb_stride as int, v_stride as int),
            fits_pairs(rgb.len() as int, width as int, height as int, rgb_stride as int, 2 * bpp, bpp + 2),
            fits_pairs(y0.len() as int, width as int, height as int, y_stride as int, 2, 1),
            fits_halves(u0.len() as int, width as int, height as int, u_stride as int, 1, 0),
            fits_halves(v0.len() as int, width as int, height as int, v_stride as int, 1, 0),
            buffer_y@.len() == y0.len(),
            buffer_u@.len() == u0.len(),
            buffer_v@.len() == v0.len(),
            buffer_y@ == apply_rows(y0, j as nat, w2 as nat, sy),
            buffer_u@ == apply_rows(u0, j as nat, w2 as nat, su),
            buffer_v@ == apply_rows(v0, j as nat, w2 as nat, sv),
        decreases h2 - j,
    {
        let mut i: usize = 0;
        while i < w2
            invariant
                i <= w2,
                j < h2,
                h2 == height / 2,
                w2 == width / 2,
                bpp == 3 || bpp == 4,
                param == p,
                rgb == buffer_rgb@,
                rgb_param_ok(p),
                sy == yuv420_y_step(p, rgb, bpp as int, rgb_stride as int, y_stride as int),
                su == yuv420_u_step(p, rgb, bpp as int, rgb_stride as int, u_stride as int),
                sv == yuv420_v_step(p, rgb, bpp as int, rgb_stride as int, v_stride as int),
                fits_pairs(rgb.len() as int, width as int, height as int, rgb_stride as int, 2 * bpp, bpp + 2),
                fits_pairs(y0.len() as int, width as int, height as int, y_stride as int, 2, 1),
                fits_halves(u0.len() as int, width as int, height as int, u_stride as int, 1, 0),
                fits_halves(v0.len() as int, width as int, height as int, v_stride as int, 1, 0),
                buffer_y@.len() == y0.len(),
                buffer_u@.len() == u0.len(),
                buffer_v@.len() == v0.len(),
                buffer_y@ == apply_row(apply_rows(y0, j as nat, w2 as nat, sy), j as int, i as nat, sy),
                buffer_u@ == apply_row(apply_rows(u0, j as nat, w2 as nat, su), j as int, i as nat, su),
                buffer_v@ == apply_row(apply_rows(v0, j as nat, w2 as nat, sv), j as int, i as nat, sv),
            decreases w2 - i,
        {
            proof {
                lemma_pairs_index(rgb.len() as int, width as int, height as int, rgb_stride as int, 2 * bpp, bpp + 2, j as int, i as int);
                lemma_pairs_index(y0.len() as int, width as int, height as int, y_stride as int, 2, 1, j as int, i as int);
                lemma_halves_index(u0.len() as int, width as int, height as int, u_stride as int, 1, 0, j as int, i as int);
                lemma_halves_index(v0.len() as int, width as int, height as int, v_stride as int, 1, 0, j as int, i as int);
            }
            let ghost by = buffer_y@;
            let ghost bu = buffer_u@;
            let ghost bv = buffer_v@;
            rgb_to_yuv420_step(&param, buffer_rgb, rgb_stride, bpp, buffer_y, buffer_u, buffer_v, y_stride, u_stride, v_stride, j, i);
            assert(buffer_y@ == sy(by, j as int, i as int));
            assert(buffer_u@ == su(bu, j as int, i as int));
            assert(buffer_v@ == sv(bv, j as int, i as int));
            i = i + 1;
        }
        j = j + 1;
    }
}

/// Converts a `width` x `height` RGBA image (4 bytes per pixel) to 4:2:0
/// Y, U and V planes.
#[allow(clippy::too_many_arguments)]
pub fn rgba_to_yuv420_std(
    width: usize,
    height: usize,
    buffer_rgba: &[u8],
    rgba_stride: usize,
    buffer_y: &mut [u8],
    buffer_u: &mut [u8],
    buffer_v: &mut [u8],
    y_stride: usize,
    u_stride: usize,
    v_stride: usize,
    yuv_type: YuvType,
)
    requires
        fits_pairs(buffer_rgba@.len() as int, width as int, height as int, rgba_stride as int, 8, 6),
        fits_pairs(old(buffer_y)@.len() as int, width as int, height as int, y_stride as int, 2, 1),
        fits_halves(old(buffer_u)@.len() as int, width as int, height as int, u_stride as int, 1, 0),
        fits_halves(old(buffer_v)@.len() as int, width as int, height as int, v_stride as int, 1, 0),
    ensures
        final(buffer_y)@.len() == old(buffer_y)@.len(),
        final(buffer_u)@.len() == old(buffer_u)@.len(),
        final(buffer_v)@.len() == old(buffer_v)@.len(),
        final(buffer_y)@ == apply_rows(
            old(buffer_y)@,
            (height / 2) as nat,
            (width / 2) as nat,
            yuv420_y_step(spec_rgb_to_yuv_param(yuv_type), buffer_rgba@, 4, rgba_stride as int, y_stride as int),
        ),
        final(buffer_u)@ == apply_rows(
            old(buffer_u)@,
            (height / 2) as nat,
            (width / 2) as nat,
            yuv420_u_step(spec_rgb_to_yuv_param(yuv_type), buffer_rgba@, 4, rgba_stride as int, u_stride as int),
        ),
        final(buffer_v)@ == apply_rows(
            old(buffer_v)@,
            (height / 2) as nat,
            (width / 2) as nat,
            yuv420_v_step(spec_rgb_to_yuv_param(yuv_type), buffer_rgba@, 4, rgba_stride as int, v_stride as int),
        ),
{
    rgb_to_yuv420_planes(
        width,
        height,
        buffer_rgba,
        rgba_stride,
        4,
        buffer_y,
        buffer_u,
        buffer_v,
        y_stride,
        u_stride,
        v_stride,
        yuv_type,
    )
}

/// Converts a `width` x `height` RGB image (3 bytes per pixel) to 4:2:0
/// Y, U and V planes.
#[allow(clippy::too_many_arguments)]
pub fn rgb24_yuv420_std(
    width: usize,
    height: usize,
    buffer_rgb: &[u8],
    rgb_stride: usize,
    buffer_y: &mut [u8],
    buffer_u: &mut [u8],
    buffer_v: &mut [u8],
    y_stride: usize,
    u_stride: usize,
    v_stride: usize,
    yuv_type: YuvType,
)
    requires
        fits_pairs(buffer_rgb@.len() as int, width as int, height as int, rgb_stride as int, 6, 5),
        fits_pairs(old(buffer_y)@.len() as int, width as int, height as int, y_stride as int, 2, 1),
        fits_halves(old(buffer_u)@.len() as int, width as int, height as int, u_stride as int, 1, 0),
        fits_halves(old(buffer_v)@.len() as int, width as int, height as int, v_stride as int, 1, 0),
    ensures
        final(buffer_y)@ == apply_rows(
            old(buffer_y)@,
            (height / 2) as nat,
            (width / 2) as nat,
            yuv420_y_step(spec_rgb_to_yuv_param(yuv_type), buffer_rgb@, 3, rgb_stride as int, y_stride as int),
        ),
        final(buffer_u)@ == apply_rows(
            old(buffer_u)@,
            (height / 2) as nat,
            (width / 2) as nat,
            yuv420_u_step(spec_rgb_to_yuv_param(yuv_type), buffer_rgb@, 3, rgb_stride as int, u_stride as int),
        ),
        final(buffer_v)@ == apply_rows(
            old(buffer_v)@,
            (height / 2) as nat,
            (width / 2) as nat,
            yuv420_v_step(spec_rgb_to_yuv_param(yuv_type), buffer_rgb@, 3, rgb_stride as int, v_stride as int),
        ),
{
    rgb_to_yuv420_planes(
        width,
        height,
        buffer_rgb,
        rgb_stride,
        3,
        buffer_y,
        buffer_u,
        buffer_v,
        y_stride,
        u_stride,
        v_stride,
        yuv_type,
    )
}


/// Converts block `(i, j)` of an RGBA image into the Y plane and the
/// interleaved UV plane.
#[allow(clippy::too_many_arguments)]
fn rgba_to_nv12_step(
    p: &RgbToYuvParam,
    buffer_rgba: &[u8],
    rgba_stride: usize,
    buffer_y: &mut [u8],
    buffer_uv: &mut [u8],
    y_stride: usize,
    uv_stride: usize,
    j: usize,
    i: usize,
)
    requires
        rgb_param_ok(*p),
        2 * j + 1 <= usize::MAX,
        (2 * j + 1) * rgba_stride + 8 * i + 6 < buffer_rgba@.len(),
        (2 * j) * rgba_stride <= (2 * j + 1) * rgba_stride,
        (2 * j + 1) * y_stride + 2 * i + 1 < old(buffer_y)@.len(),
        (2 * j) * y_stride <= (2 * j + 1) * y_stride,
        j * uv_stride + 2 * i + 1 < old(buffer_uv)@.len(),
    ensures
        final(buffer_y)@ == yuv420_y_step(*p, buffer_rgba@, 4, rgba_stride as int, y_stride as int)(
            old(buffer_y)@,
            j as int,
            i as int,
        ),
        final(buffer_uv)@ == nv12_uv_step(*p, buffer_rgba@, rgba_stride as int, uv_stride as int)(
            old(buffer_uv)@,
            j as int,
            i as int,
        ),
{
    assert((2 * j + 1) * rgba_stride + 8 * i + 6 < buffer_rgba.len());
    assert((2 * j + 1) * y_stride + 2 * i + 1 < buffer_y.len());
    assert(j * uv_stride + 2 * i + 1 < buffer_uv.len());
    let y = 2 * j;
    let o1 = y * rgba_stride + 8 * i;
    let o2 = (y + 1) * rgba_stride + 8 * i;
    let yi1 = y * y_stride + 2 * i;
    let yi2 = (y + 1) * y_stride + 2 * i;
    let (u, v) = rgb_to_yuv420_block(p, buffer_rgba, 4, o1, o2, buffer_y, yi1, yi2);
    let uvi = j * uv_stride + 2 * i;
    buffer_uv[uvi] = u;
    buffer_uv[uvi + 1] = v;
}

/// Converts a `width` x `height` RGBA image to NV12: a Y plane and a plane
/// where the U and V bytes of each 2x2 block follow each other.
#[allow(clippy::too_many_arguments)]
pub fn rgba_to_nv12_std(
    width: usize,
    height: usize,
    buffer_rgba: &[u8],
    rgba_stride: usize,
    buffer_y: &mut [u8],
    buffer_uv: &mut [u8],
    y_stride: usize,
    uv_stride: usize,
    yuv_type: YuvType,
)
    requires
        fits_pairs(buffer_rgba@.len() as int, width as int, height as int, rgba_stride as int, 8, 6),
        fits_pairs(old(buffer_y)@.len() as int, width as int, height as int, y_stride as int, 2, 1),
        fits_halves(old(buffer_uv)@.len() as int, width as int, height as int, uv_stride as int, 2, 1),
    ensures
        final(buffer_y)@.len() == old(buffer_y)@.len(),
        final(buffer_uv)@.len() == old(buffer_uv)@.len(),
        final(buffer_y)@ == apply_rows(
            old(buffer_y)@,
            (height / 2) as nat,
            (width / 2) as nat,
            yuv420_y_step(spec_rgb_to_yuv_param(yuv_type), buffer_rgba@, 4, rgba_stride as int, y_stride as int),
        ),
        final(buffer_uv)@ == apply_rows(
            old(buffer_uv)@,
            (height / 2) as nat,
            (width / 2) as nat,
            nv12_uv_step(spec_rgb_to_yuv_param(yuv_type), buffer_rgba@, rgba_stride as int, uv_stride as int),
        ),
{
    let param = get_rgb_to_yuv_param(yuv_type);
    let ghost p = param;
    let ghost rgba = buffer_rgba@;
    let ghost sy = yuv420_y_step(p, rgba, 4, rgba_stride as int, y_stride as int);
    let ghost suv = nv12_uv_step(p, rgba, rgba_stride as int, uv_stride as int);
    let ghost y0 = buffer_y@;
    let ghost uv0 = buffer_uv@;
    let h2 = height / 2;
    let w2 = width / 2;
    let mut j: usize = 0;
    while j < h2
        invariant
            j <= h2,
            h2 == height / 2,
            w2 == width / 2,
            param == p,
            rgba == buffer_rgba@,
            rgb_param_ok(p),
            p == spec_rgb_to_yuv_param(yuv_type),
            sy == yuv420_y_step(p, rgba, 4, rgba_stride as int, y_stride as int),
            suv == nv12_uv_step(p, rgba, rgba_stride as int, uv_stride as int),
            fits_pairs(rgba.len() as int, width as int, height as int, rgba_stride as int, 8, 6),
            fits_pairs(y0.len() as int, width as int, height as int, y_stride as int, 2, 1),
            fits_halves(uv0.len() as int, width as int, height as int, uv_stride as int, 2, 1),
            buffer_y@.len() == y0.len(),
            buffer_uv@.len() == uv0.len(),
            buffer_y@ == apply_rows(y0, j as nat, w2 as nat, sy),
            buffer_uv@ == apply_rows(uv0, j as nat, w2 as nat, suv),
        decreases h2 - j,
    {
        let mut i: usize = 0;
        while i < w2
            invariant
                i <= w2,
                j < h2,
                h2 == height / 2,
                w2 == width / 2,
                param == p,
                rgba == buffer_rgba@,
                rgb_param_ok(p),
                sy == yuv420_y_step(p, rgba, 4, rgba_stride as int, y_stride as int),
                suv == nv12_uv_step(p, rgba, rgba_stride as int, uv_stride as int),
                fits_pairs(rgba.len() as int, width as int, height as int, rgba_stride as int, 8, 6),
                fits_pairs(y0.len() as int, width as int, height as int, y_stride as int, 2, 1),
                fits_halves(uv0.len() as int, width as int, height as int, uv_stride as int, 2, 1),
                buffer_y@.len() == y0.len(),
                buffer_uv@.len() == uv0.len(),
                buffer_y@ == apply_row(apply_rows(y0, j as nat, w2 as nat, sy), j as int, i as nat, sy),
                buffer_uv@ == apply_row(apply_rows(uv0, j as nat, w2 as nat, suv), j as int, i as nat, suv),
            decreases w2 - i,
        {
            proof {
                lemma_pairs_index(rgba.len() as int, width as int, height as int, rgba_stride as int, 8, 6, j as int, i as int);
                lemma_pairs_index(y0.len() as int, width as int, height as int, y_stride as int, 2, 1, j as int, i as int);
                lemma_halves_index(uv0.len() as int, width as int, height as int, uv_stride as int, 2, 1, j as int, i as int);
            }
            rgba_to_nv12_step(&param, buffer_rgba, rgba_stride, buffer_y, buffer_uv, y_stride, uv_stride, j, i);
            i = i + 1;
        }
        j = j + 1;
    }
}

// ---------------------------------------------------------------------------
// YUV to RGBA
// ---------------------------------------------------------------------------

/// `x` taken as a signed 16 bit integer.
pub open spec fn wrap_i16(x: int) -> int {
    ((x + 32768) % 65536) - 32768
}

/// `v` clamped to `0..=255`.
pub open spec fn clamp_byte(v: int) -> u8 {
    if v < 0 {
        0
    } else if v > 255 {
        255
    } else {
        v as u8
    }
}

/// The scaled luma of a Y byte; the product is taken on 16 bits.
pub open spec fn luma_scaled(p: YuvToRgbParam, yv: u8) -> int {
    wrap_i16(p.y_factor * (yv - p.y_offset)) / 128
}

/// The contribution of V to the red channel.
pub open spec fn red_offset(p: YuvToRgbParam, v: u8) -> int {
    (p.cr_factor * (v - 128)) / 64
}

/// The contribution of U to the blue channel.
pub open spec fn blue_offset(p: YuvToRgbParam, u: u8) -> int {
    (p.cb_factor * (u - 128)) / 64
}

/// The contribution of U and V to the green channel (subtracted).
pub open spec fn green_offset(p: YuvToRgbParam, u: u8, v: u8) -> int {
    (p.g_cb_factor * (u - 128) + p.g_cr_factor * (v - 128)) / 128
}

/// The writes of the red, green and blue bytes of the pixel at `o` computed
/// from `yv`, `u` and `v`; the fourth byte of the pixel is left as it was.
pub open spec fn rgb_px_write(buf: Seq<u8>, o: int, p: YuvToRgbParam, yv: u8, u: u8, v: u8) -> Seq<u8> {
    let l = luma_scaled(p, yv);
    buf.update(o, clamp_byte(l + red_offset(p, v))).update(
        o + 1,
        clamp_byte(l - green_offset(p, u, v)),
    ).update(o + 2, clamp_byte(l + blue_offset(p, u)))
}

fn exec_clamp(v: i32) -> (b: u8)
    ensures
        b == clamp_byte(v as int),
{
    if v < 0 {
        0
    } else if v > 255 {
        255
    } else {
        v as u8
    }
}

/// Writes the red, green and blue bytes of the pixel at `o`.
fn yuv_to_rgb_px(p: &YuvToRgbParam, yv: u8, u: u8, v: u8, buffer_rgba: &mut [u8], o: usize)
    requires
        o + 2 < old(buffer_rgba)@.len(),
    ensures
        final(buffer_rgba)@ == rgb_px_write(old(buffer_rgba)@, o as int, *p, yv, u, v),
{
    let yf = p.y_factor as u32;
    let yo = p.y_offset as u32;
    let cb = p.cb_factor as u32;
    let cr = p.cr_factor as u32;
    let gcb = p.g_cb_factor as u32;
    let gcr = p.g_cr_factor as u32;
    let uu = u as u32;
    let vv = v as u32;
    let yy = yv as u32;
    assert(yf * yy <= 65025 && yf * yo <= 65025) by (nonlinear_arith)
        requires
            yf <= 255,
            yy <= 255,
            yo <= 255,
    ;
    assert(cb * uu <= 65025 && 128 * cb <= 32640 && cr * vv <= 65025 && 128 * cr <= 32640)
        by (nonlinear_arith)
        requires
            cb <= 255,
            uu <= 255,
            cr <= 255,
            vv <= 255,
    ;
    assert(gcb * uu <= 65025 && gcr * vv <= 65025) by (nonlinear_arith)
        requires
            gcb <= 255,
            uu <= 255,
            gcr <= 255,
            vv <= 255,
    ;
    // luma: the product, shifted up by 3 * 2^15 so that it is not negative
    let t = (98304 + yf * yy - yf * yo) % 65536;
    let l = (t / 128) as i32 - 256;
    let qb = cb * uu + 32768 - 128 * cb;
    let bo = (qb / 64) as i32 - 512;
    let qr = cr * vv + 32768 - 128 * cr;
    let ro = (qr / 64) as i32 - 512;
    let qg = gcb * uu + gcr * vv + 65536 - 128 * (gcb + gcr);
    let go = (qg / 128) as i32 - 512;
    proof {
        let prod = p.y_factor * (yv - p.y_offset);
        assert(yf * yy - yf * yo == prod) by (nonlinear_arith)
            requires
                yf == p.y_factor,
                yy == yv,
                yo == p.y_offset,
                prod == p.y_factor * (yv - p.y_offset),
        ;
        lemma_mod_add_multiples_vanish(prod + 32768, 65536);
        assert(t == (prod + 32768) % 65536);
        lemma_hoist_over_denominator(t - 32768, 256, 128);
        assert(l == luma_scaled(*p, yv));
        let xb = p.cb_factor * (u - 128);
        assert(qb - 32768 == xb) by (nonlinear_arith)
            requires
                qb == cb * uu + 32768 - 128 * cb,
                cb == p.cb_factor,
                uu == u,
                xb == p.cb_factor * (u - 128),
        ;
        lemma_hoist_over_denominator(xb, 512, 64);
        assert(bo == blue_offset(*p, u));
        let xr = p.cr_factor * (v - 128);
        assert(qr - 32768 == xr) by (nonlinear_arith)
            requires
                qr == cr * vv + 32768 - 128 * cr,
                cr == p.cr_factor,
                vv == v,
                xr == p.cr_factor * (v - 128),
        ;
        lemma_hoist_over_denominator(xr, 512, 64);
        assert(ro == red_offset(*p, v));
        let xg = p.g_cb_factor * (u - 128) + p.g_cr_factor * (v - 128);
        assert(qg - 65536 == xg) by (nonlinear_arith)
            requires
                qg == gcb * uu + gcr * vv + 65536 - 128 * (gcb + gcr),
                gcb == p.g_cb_factor,
                gcr == p.g_cr_factor,
                uu == u,
                vv == v,
                xg == p.g_cb_factor * (u - 128) + p.g_cr_factor * (v - 128),
        ;
        lemma_hoist_over_denominator(xg, 512, 128);
        assert(go == green_offset(*p, u, v));
    }
    buffer_rgba[o] = exec_clamp(l + ro);
    buffer_rgba[o + 1] = exec_clamp(l - go);
    buffer_rgba[o + 2] = exec_clamp(l + bo);
}

/// The writes into the RGBA image of block `(i, j)` of a 4:2:0 walk, with
/// the chroma of the block read at `j * u_stride + cstep * i` in `us` and at
/// `j * v_stride + cstep * i + voff` in `vs`.
pub open spec fn yuv420_rgba_step(
    p: YuvToRgbParam,
    ys: Seq<u8>,
    us: Seq<u8>,
    vs: Seq<u8>,
    y_stride: int,
    u_stride: int,
    v_stride: int,
    cstep: int,
    voff: int,
    rgba_stride: int,
) -> spec_fn(Seq<u8>, int, int) -> Seq<u8> {
    |b: Seq<u8>, j: int, i: int|
        {
            let u = us[j * u_stride + cstep * i];
            let v = vs[j * v_stride + cstep * i + voff];
            let o1 = block_top(rgba_stride, 4, j, i);
            let o2 = block_bottom(rgba_stride, 4, j, i);
            let y1 = block_top(y_stride, 1, j, i);
            let y2 = block_bottom(y_stride, 1, j, i);
            rgb_px_write(
                rgb_px_write(
                    rgb_px_write(rgb_px_write(b, o1, p, ys[y1], u, v), o1 + 4, p, ys[y1 + 1], u, v),
                    o2,
                    p,
                    ys[y2],
                    u,
                    v,
                ),
                o2 + 4,
                p,
                ys[y2 + 1],
                u,
                v,
            )
        }
}

/// Converts block `(i, j)` of a 4:2:0 image into RGBA.
#[allow(clippy::too_many_arguments)]
fn yuv420_to_rgba_step(
    p: &YuvToRgbParam,
    buffer_y: &[u8],
    buffer_u: &[u8],
    buffer_v: &[u8],
    y_stride: usize,
    u_stride: usize,
    v_stride: usize,
    cstep: usize,
    voff: usize,
    buffer_rgba: &mut [u8],
    rgba_stride: usize,
    j: usize,
    i: usize,
)
    requires
        cstep == 1 || cstep == 2,
        voff <= 1,
        2 * j + 1 <= usize::MAX,
        (2 * j + 1) * rgba_stride + 8 * i + 6 < old(buffer_rgba)@.len(),
        (2 * j) * rgba_stride <= (2 * j + 1) * rgba_stride,
        (2 * j + 1) * y_stride + 2 * i + 1 < buffer_y@.len(),
        (2 * j) * y_stride <= (2 * j + 1) * y_stride,
        j * u_stride + cstep * i < buffer_u@.len(),
        j * v_stride + cstep * i + voff < buffer_v@.len(),
    ensures
        final(buffer_rgba)@ == yuv420_rgba_step(
            *p,
            buffer_y@,
            buffer_u@,
            buffer_v@,
            y_stride as int,
            u_stride as int,
            v_stride as int,
            cstep as int,
            voff as int,
            rgba_stride as int,
        )(old(buffer_rgba)@, j as int, i as int),
{
    assert((2 * j + 1) * rgba_stride + 8 * i + 6 < buffer_rgba.len());
    assert((2 * j + 1) * y_stride + 2 * i + 1 < buffer_y.len());
    assert(j * u_stride + cstep * i < buffer_u.len());
    assert(j * v_stride + cstep * i + voff < buffer_v.len());
    let y = 2 * j;
    let u = buffer_u[j * u_stride + cstep * i];
    let v = buffer_v[j * v_stride + cstep * i + voff];
    let o1 = y * rgba_stride + 8 * i;
    let o2 = (y + 1) * rgba_stride + 8 * i;
    let yi1 = y * y_stride + 2 * i;
    let yi2 = (y + 1) * y_stride + 2 * i;
    yuv_to_rgb_px(p, buffer_y[yi1], u, v, buffer_rgba, o1);
    yuv_to_rgb_px(p, buffer_y[yi1 + 1], u, v, buffer_rgba, o1 + 4);
    yuv_to_rgb_px(p, buffer_y[yi2], u, v, buffer_rgba, o2);
    yuv_to_rgb_px(p, buffer_y[yi2 + 1], u, v, buffer_rgba, o2 + 4);
}

/// Converts a 4:2:0 image to RGBA, the chroma being read as in
/// `yuv420_rgba_step`. An odd last row or column is left out.
#[allow(clippy::too_many_arguments)]
fn yuv420_to_rgba_planes(
    width: usize,
    height: usize,
    buffer_y: &[u8],
    buffer_u: &[u8],
    buffer_v: &[u8],
    y_stride: usize,
    u_stride: usize,
    v_stride: usize,
    cstep: usize,
    voff: usize,
    buffer_rgba: &mut [u8],
    rgba_stride: usize,
    yuv_type: YuvType,
)
    requires
        cstep == 1 || cstep == 2,
        voff <= 1,
        fits_pairs(buffer_y@.len() as int, width as int, height as int, y_stride as int, 2, 1),
        fits_halves(buffer_u@.len() as int, width as int, height as int, u_stride as int, cstep as int, 0),
        fits_halves(buffer_v@.len() as int, width as int, height as int, v_stride as int, cstep as int, voff as int),
        fits_pairs(old(buffer_rgba)@.len() as int, width as int, height as int, rgba_stride as int, 8, 6),
    ensures
        final(buffer_rgba)@ == apply_rows(
            old(buffer_rgba)@,
            (height / 2) as nat,
            (width / 2) as nat,
            yuv420_rgba_step(
                spec_yuv_to_rgb_param(yuv_type),
                buffer_y@,
                buffer_u@,
                buffer_v@,
                y_stride as int,
                u_stride as int,
                v_stride as int,
                cstep as int,
                voff as int,
                rgba_stride as int,
            ),
        ),
{
    let param = get_yuv_to_rgb_param(yuv_type);
    let ghost st = yuv420_rgba_step(
        param,
        buffer_y@,
        buffer_u@,
        buffer_v@,
        y_stride as int,
        u_stride as int,
        v_stride as int,
        cstep as int,
        voff as int,
        rgba_stride as int,
    );
    let ghost r0 = buffer_rgba@;
    let h2 = height / 2;
    let w2 = width / 2;
    let mut j: usize = 0;
    while j < h2
        invariant
            j <= h2,
            h2 == height / 2,
            w2 == width / 2,
            cstep == 1 || cstep == 2,
            voff <= 1,
            param == spec_yuv_to_rgb_param(yuv_type),
            st == yuv420_rgba_step(
                param,
                buffer_y@,
                buffer_u@,
                buffer_v@,
                y_stride as int,
                u_stride as int,
                v_stride as int,
                cstep as int,
                voff as int,
                rgba_stride as int,
            ),
            fits_pairs(buffer_y@.len() as int, width as int, height as int, y_stride as int, 2, 1),
            fits_halves(buffer_u@.len() as int, width as int, height as int, u_stride as int, cstep as int, 0),
            fits_halves(buffer_v@.len() as int, width as int, height as int, v_stride as int, cstep as int, voff as int),
            fits_pairs(r0.len() as int, width as int, height as int, rgba_stride as int, 8, 6),
            buffer_rgba@.len() == r0.len(),
            buffer_rgba@ == apply_rows(r0, j as nat, w2 as nat, st),
        decreases h2 - j,
    {
        let mut i: usize = 0;
        while i < w2
            invariant
                i <= w2,
                j < h2,
                h2 == height / 2,
                w2 == width / 2,
                cstep == 1 || cstep == 2,
                voff <= 1,
                param == spec_yuv_to_rgb_param(yuv_type),
                st == yuv420_rgba_step(
                    param,
                    buffer_y@,
                    buffer_u@,
                    buffer_v@,
                    y_stride as int,
                    u_stride as int,
                    v_stride as int,
                    cstep as int,
                    voff as int,
                    rgba_stride as int,
                ),
                fits_pairs(buffer_y@.len() as int, width as int, height as int, y_stride as int, 2, 1),
                fits_halves(buffer_u@.len() as int, width as int, height as int, u_stride as int, cstep as int, 0),
                fits_halves(buffer_v@.len() as int, width as int, height as int, v_stride as int, cstep as int, voff as int),
                fits_pairs(r0.len() as int, width as int, height as int, rgba_stride as int, 8, 6),
                buffer_rgba@.len() == r0.len(),
                buffer_rgba@ == apply_row(apply_rows(r0, j as nat, w2 as nat, st), j as int, i as nat, st),
            decreases w2 - i,
        {
            proof {
                lemma_pairs_index(buffer_y@.len() as int, width as int, height as int, y_stride as int, 2, 1, j as int, i as int);
                lemma_halves_index(buffer_u@.len() as int, width as int, height as int, u_stride as int, cstep as int, 0, j as int, i as int);
                lemma_halves_index(buffer_v@.len() as int, width as int, height as int, v_stride as int, cstep as int, voff as int, j as int, i as int);
                lemma_pairs_index(r0.len() as int, width as int, height as int, rgba_stride as int, 8, 6, j as int, i as int);
            }
            yuv420_to_rgba_step(&param, buffer_y, buffer_u, buffer_v, y_stride, u_stride, v_stride, cstep, voff, buffer_rgba, rgba_stride, j, i);
            i = i + 1;
        }
        j = j + 1;
    }
}

/// Converts 4:2:0 Y, U and V planes to a `width` x `height` RGBA image: the
/// U and V bytes of each 2x2 block go with its four Y bytes. The fourth byte
/// of each pixel is left as it was.
#[allow(clippy::too_many_arguments)]
pub fn yuv420_to_rgba_std(
    width: usize,
    height: usize,
    buffer_y: &[u8],
    buffer_u: &[u8],
    buffer_v: &[u8],
    y_stride: usize,
    u_stride: usize,
    v_stride: usize,
    buffer_rgba: &mut [u8],
    rgba_stride: usize,
    yuv_type: YuvType,
)
    requires
        fits_pairs(buffer_y@.len() as int, width as int, height as int, y_stride as int, 2, 1),
        fits_halves(buffer_u@.len() as int, width as int, height as int, u_stride as int, 1, 0),
        fits_halves(buffer_v@.len() as int, width as int, height as int, v_stride as int, 1, 0),
        fits_pairs(old(buffer_rgba)@.len() as int, width as int, height as int, rgba_stride as int, 8, 6),
    ensures
        final(buffer_rgba)@ == apply_rows(
            old(buffer_rgba)@,
            (height / 2) as nat,
            (width / 2) as nat,
            yuv420_rgba_step(
                spec_yuv_to_rgb_param(yuv_type),
                buffer_y@,
                buffer_u@,
                buffer_v@,
                y_stride as int,
                u_stride as int,
                v_stride as int,
                1,
                0,
                rgba_stride as int,
            ),
        ),
{
    yuv420_to_rgba_planes(
        width,
        height,
        buffer_y,
        buffer_u,
        buffer_v,
        y_stride,
        u_stride,
        v_stride,
        1,
        0,
        buffer_rgba,
        rgba_stride,
        yuv_type,
    )
}

/// Converts an NV12 image (a Y plane and a plane where the U and V bytes of
/// each 2x2 block follow each other) to a `width` x `height` RGBA image. The
/// fourth byte of each pixel is left as it was.
#[allow(clippy::too_many_arguments)]
pub fn nv12_rgba_std(
    width: usize,
    height: usize,
    buffer_y: &[u8],
    buffer_uv: &[u8],
    y_stride: usize,
    uv_stride: usize,
    buffer_rgba: &mut [u8],
    rgba_stride: usize,
    yuv_type: YuvType,
)
    requires
        fits_pairs(buffer_y@.len() as int, width as int, height as int, y_stride as int, 2, 1),
        fits_halves(buffer_uv@.len() as int, width as int, height as int, uv_stride as int, 2, 1),
        fits_pairs(old(buffer_rgba)@.len() as int, width as int, height as int, rgba_stride as int, 8, 6),
    ensures
        final(buffer_rgba)@ == apply_rows(
            old(buffer_rgba)@,
            (height / 2) as nat,
            (width / 2) as nat,
            yuv420_rgba_step(
                spec_yuv_to_rgb_param(yuv_type),
                buffer_y@,
                buffer_uv@,
                buffer_uv@,
                y_stride as int,
                uv_stride as int,
                uv_stride as int,
                2,
                1,
                rgba_stride as int,
            ),
        ),
{
    yuv420_to_rgba_planes(
        width,
        height,
        buffer_y,
        buffer_uv,
        buffer_uv,
        y_stride,
        uv_stride,
        uv_stride,
        2,
        1,
        buffer_rgba,
        rgba_stride,
        yuv_type,
    )
}

/// The writes into the RGBA image of pixel `(i, j)` of a 4:4:4 image.
pub open spec fn yuv444_rgba_step(
    p: YuvToRgbParam,
    ys: Seq<u8>,
    us: Seq<u8>,
    vs: Seq<u8>,
    y_stride: int,
    u_stride: int,
    v_stride: int,
    rgba_stride: int,
) -> spec_fn(Seq<u8>, int, int) -> Seq<u8> {
    |b: Seq<u8>, j: int, i: int|
        rgb_px_write(
            b,
            px_offset(rgba_stride, 4, j, i),
            p,
            ys[j * y_stride + i],
            us[j * u_stride + i],
            vs[j * v_stride + i],
        )
}

/// The colour bytes of a pixel converted from `yv`, `u`, `v`.
pub open spec fn rgb_of(p: YuvToRgbParam, yv: u8, u: u8, v: u8) -> (u8, u8, u8) {
    let l = luma_scaled(p, yv);
    (
        clamp_byte(l + red_offset(p, v)),
        clamp_byte(l - green_offset(p, u, v)),
        clamp_byte(l + blue_offset(p, u)),
    )
}

/// The colour bytes of pixel `(i, j)` of a 4:4:4 image.
pub open spec fn yuv444_pixel_rgb(
    p: YuvToRgbParam,
    ys: Seq<u8>,
    us: Seq<u8>,
    vs: Seq<u8>,
    y_stride: int,
    u_stride: int,
    v_stride: int,
    j: int,
    i: int,
) -> (u8, u8, u8) {
    rgb_of(p, ys[j * y_stride + i], us[j * u_stride + i], vs[j * v_stride + i])
}

/// Law: when the lines of the image do not overlap, each RGB pixel of the
/// 4:4:4 conversion is computed from the Y, U and V bytes of its own
/// position alone.
pub proof fn lemma_yuv444_to_rgba_pixels(
    p: YuvToRgbParam,
    ys: Seq<u8>,
    us: Seq<u8>,
    vs: Seq<u8>,
    y_stride: int,
    u_stride: int,
    v_stride: int,
    rgba_stride: int,
    rgba0: Seq<u8>,
    width: nat,
    height: nat,
)
    requires
        4 * width <= rgba_stride,
        height > 0 ==> (height - 1) * rgba_stride + 4 * width <= rgba0.len(),
    ensures
        forall|j: int, i: int|
            0 <= j < height && 0 <= i < width ==> {
                let r = apply_rows(
                    rgba0,
                    height,
                    width,
                    yuv444_rgba_step(p, ys, us, vs, y_stride, u_stride, v_stride, rgba_stride),
                );
                let o = j * rgba_stride + 4 * i;
                let c = #[trigger] yuv444_pixel_rgb(p, ys, us, vs, y_stride, u_stride, v_stride, j, i);
                &&& r[o] == c.0
                &&& r[o + 1] == c.1
                &&& r[o + 2] == c.2
            },
{
    let f = |j: int, i: int| yuv444_pixel_rgb(p, ys, us, vs, y_stride, u_stride, v_stride, j, i);
    assert(yuv444_rgba_step(p, ys, us, vs, y_stride, u_stride, v_stride, rgba_stride) =~= rgb_grid_step(
        0,
        rgba_stride,
        f,
    ));
    lemma_rgb_grid_rows(rgba0, 0, height, width, rgba_stride, f);
    assert forall|j: int, i: int| 0 <= j < height && 0 <= i < width implies {
        let r = apply_rows(
            rgba0,
            height,
            width,
            yuv444_rgba_step(p, ys, us, vs, y_stride, u_stride, v_stride, rgba_stride),
        );
        let o = j * rgba_stride + 4 * i;
        let c = #[trigger] yuv444_pixel_rgb(p, ys, us, vs, y_stride, u_stride, v_stride, j, i);
        &&& r[o] == c.0
        &&& r[o + 1] == c.1
        &&& r[o + 2] == c.2
    } by {
        assert(f(j, i) == yuv444_pixel_rgb(p, ys, us, vs, y_stride, u_stride, v_stride, j, i));
    }
}

/// Converts 4:4:4 Y, U and V planes to a `width` x `height` RGBA image. The
/// fourth byte of each pixel is left as it was.
#[allow(clippy::too_many_arguments)]
pub fn yuv444_to_rgba_std(
    width: usize,
    height: usize,
    buffer_y: &[u8],
    buffer_u: &[u8],
    buffer_v: &[u8],
    y_stride: usize,
    u_stride: usize,
    v_stride: usize,
    buffer_rgba: &mut [u8],
    rgba_stride: usize,
    yuv_type: YuvType,
)
    requires
        width > 0 && height > 0 ==> {
            &&& (height - 1) * y_stride + width - 1 < buffer_y@.len()
            &&& (height - 1) * u_stride + width - 1 < buffer_u@.len()
            &&& (height - 1) * v_stride + width - 1 < buffer_v@.len()
            &&& (height - 1) * rgba_stride + 4 * (width - 1) + 2 < old(buffer_rgba)@.len()
        },
    ensures
        final(buffer_rgba)@ == apply_rows(
            old(buffer_rgba)@,
            height as nat,
            width as nat,
            yuv444_rgba_step(
                spec_yuv_to_rgb_param(yuv_type),
                buffer_y@,
                buffer_u@,
                buffer_v@,
                y_stride as int,
                u_stride as int,
                v_stride as int,
                rgba_stride as int,
            ),
        ),
{
    let param = get_yuv_to_rgb_param(yuv_type);
    let ghost st = yuv444_rgba_step(
        param,
        buffer_y@,
        buffer_u@,
        buffer_v@,
        y_stride as int,
        u_stride as int,
        v_stride as int,
        rgba_stride as int,
    );
    let ghost r0 = buffer_rgba@;
    let mut y: usize = 0;
    while y < height
        invariant
            y <= height,
            param == spec_yuv_to_rgb_param(yuv_type),
            st == yuv444_rgba_step(
                param,
                buffer_y@,
                buffer_u@,
                buffer_v@,
                y_stride as int,
                u_stride as int,
                v_stride as int,
                rgba_stride as int,
            ),
            width > 0 && height > 0 ==> {
                &&& (height - 1) * y_stride + width - 1 < buffer_y@.len()
                &&& (height - 1) * u_stride + width - 1 < buffer_u@.len()
                &&& (height - 1) * v_stride + width - 1 < buffer_v@.len()
                &&& (height - 1) * rgba_stride + 4 * (width - 1) + 2 < r0.len()
            },
            buffer_rgba@.len() == r0.len(),
            buffer_rgba@ == apply_rows(r0, y as nat, width as nat, st),
        decreases height - y,
    {
        proof {
            lemma_mul_inequality(y as int, height - 1, rgba_stride as int);
            lemma_mul_inequality(y as int, height - 1, y_stride as int);
            lemma_mul_inequality(y as int, height - 1, u_stride as int);
            lemma_mul_inequality(y as int, height - 1, v_stride as int);
        }
        let mut x: usize = 0;
        while x < width
            invariant
                x <= width,
                y < height,
                param == spec_yuv_to_rgb_param(yuv_type),
                st == yuv444_rgba_step(
                    param,
                    buffer_y@,
                    buffer_u@,
                    buffer_v@,
                    y_stride as int,
                    u_stride as int,
                    v_stride as int,
                    rgba_stride as int,
                ),
                y * rgba_stride <= (height - 1) * rgba_stride,
                y * y_stride <= (height - 1) * y_stride,
                y * u_stride <= (height - 1) * u_stride,
                y * v_stride <= (height - 1) * v_stride,
                width > 0 && height > 0 ==> {
                    &&& (height - 1) * y_stride + width - 1 < buffer_y@.len()
                    &&& (height - 1) * u_stride + width - 1 < buffer_u@.len()
                    &&& (height - 1) * v_stride + width - 1 < buffer_v@.len()
                    &&& (height - 1) * rgba_stride + 4 * (width - 1) + 2 < r0.len()
                },
                buffer_rgba@.len() == r0.len(),
                buffer_rgba@ == apply_row(apply_rows(r0, y as nat, width as nat, st), y as int, x as nat, st),
            decreases width - x,
        {
            assert(y * rgba_stride + 4 * x + 2 < buffer_rgba.len());
            assert(y * y_stride + x < buffer_y.len());
            assert(y * u_stride + x < buffer_u.len());
            assert(y * v_stride + x < buffer_v.len());
            let o = y * rgba_stride + 4 * x;
            let yv = buffer_y[y * y_stride + x];
            let u = buffer_u[y * u_stride + x];
            let v = buffer_v[y * v_stride + x];
            yuv_to_rgb_px(&param, yv, u, v, buffer_rgba, o);
            x = x + 1;
        }
        y = y + 1;
    }
}

} // verus!
