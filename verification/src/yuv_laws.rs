//! Laws that span the conversions of the `yuv` module: what a conversion
//! to YUV and the conversion back give together.

use crate::yuv::{
    apply_row, apply_rows, block_bottom, block_top, blue_diff_sum, chroma_avg_byte, luma, luma_at,
    nv12_uv_step, red_diff_sum, spec_rgb_to_yuv_param, spec_yuv_to_rgb_param, u_block, v_block, y_byte,
    y_px, yuv420_y_step, YuvType, rgb_px_write, luma_scaled, red_offset, green_offset,
    blue_offset, clamp_byte, wrap_i16, yuv420_rgba_step, rgb_of,
};
use crate::yuv::fits_pairs;
use vstd::arithmetic::div_mod::lemma_fundamental_div_mod_converse;
use vstd::prelude::*;

verus! {

/// Every write of `step` over the `cols` x `rows` walk keeps the buffer's
/// length.
pub open spec fn keeps_len(step: spec_fn(Seq<u8>, int, int) -> Seq<u8>, rows: int, cols: int, len: int) -> bool {
    forall|b: Seq<u8>, j: int, i: int|
        0 <= j < rows && 0 <= i < cols && b.len() == len ==> #[trigger] step(b, j, i).len() == len
}

/// No write of `step` over the walk takes a byte away from its value in
/// `target`.
pub open spec fn keeps_target(
    step: spec_fn(Seq<u8>, int, int) -> Seq<u8>,
    rows: int,
    cols: int,
    len: int,
    target: spec_fn(int) -> u8,
) -> bool {
    forall|b: Seq<u8>, j: int, i: int, k: int|
        0 <= j < rows && 0 <= i < cols && b.len() == len && 0 <= k < len && b[k] == target(k) ==> #[trigger] step(b, j, i)[k]
            == target(k)
}

/// The write of `step` for `(i, j)` gives each byte `k` that `covers(j, i, k)`
/// its value in `target`.
pub open spec fn sets_target(
    step: spec_fn(Seq<u8>, int, int) -> Seq<u8>,
    rows: int,
    cols: int,
    len: int,
    target: spec_fn(int) -> u8,
    covers: spec_fn(int, int, int) -> bool,
) -> bool {
    forall|b: Seq<u8>, j: int, i: int, k: int|
        0 <= j < rows && 0 <= i < cols && covers(j, i, k) && b.len() == len && 0 <= k < len ==> #[trigger] step(b, j, i)[k]
            == target(k)
}

proof fn lemma_row_targets(
    buf: Seq<u8>,
    row: int,
    rows: int,
    cols: nat,
    all_cols: int,
    step: spec_fn(Seq<u8>, int, int) -> Seq<u8>,
    target: spec_fn(int) -> u8,
    covers: spec_fn(int, int, int) -> bool,
)
    requires
        0 <= row < rows,
        cols <= all_cols,
        keeps_len(step, rows, all_cols, buf.len() as int),
        keeps_target(step, rows, all_cols, buf.len() as int, target),
        sets_target(step, rows, all_cols, buf.len() as int, target, covers),
    ensures
        apply_row(buf, row, cols, step).len() == buf.len(),
        forall|k: int|
            0 <= k < buf.len() && buf[k] == target(k) ==> #[trigger] apply_row(buf, row, cols, step)[k] == target(k),
        forall|i: int, k: int|
            #![trigger covers(row, i, k), apply_row(buf, row, cols, step)[k]]
            0 <= i < cols && covers(row, i, k) && 0 <= k < buf.len() ==> apply_row(buf, row, cols, step)[k]
                == target(k),
    decreases cols,
{
    if cols > 0 {
        lemma_row_targets(buf, row, rows, (cols - 1) as nat, all_cols, step, target, covers);
        let prev = apply_row(buf, row, (cols - 1) as nat, step);
        assert(step(prev, row, cols - 1).len() == prev.len());
        assert forall|k: int| 0 <= k < buf.len() && buf[k] == target(k) implies #[trigger] apply_row(
            buf,
            row,
            cols,
            step,
        )[k] == target(k) by {
            assert(prev[k] == target(k));
            assert(step(prev, row, cols - 1)[k] == target(k));
        }
        assert forall|i: int, k: int|
            #![trigger covers(row, i, k), apply_row(buf, row, cols, step)[k]]
            0 <= i < cols && covers(row, i, k) && 0 <= k < buf.len() implies apply_row(
            buf,
            row,
            cols,
            step,
        )[k] == target(k) by {
            if i < cols - 1 {
                assert(prev[k] == target(k));
            }
            assert(step(prev, row, cols - 1)[k] == target(k));
        }
    }
}

/// Law: when no write of a walk takes a byte away from its value in
/// `target`, each byte that the write of some `(i, j)` of the walk gives its
/// target value holds that value at the end, and bytes that held their
/// target value keep it.
pub proof fn lemma_rows_targets(
    buf: Seq<u8>,
    rows: nat,
    cols: nat,
    step: spec_fn(Seq<u8>, int, int) -> Seq<u8>,
    target: spec_fn(int) -> u8,
    covers: spec_fn(int, int, int) -> bool,
)
    requires
        keeps_len(step, rows as int, cols as int, buf.len() as int),
        keeps_target(step, rows as int, cols as int, buf.len() as int, target),
        sets_target(step, rows as int, cols as int, buf.len() as int, target, covers),
    ensures
        apply_rows(buf, rows, cols, step).len() == buf.len(),
        forall|k: int|
            0 <= k < buf.len() && buf[k] == target(k) ==> #[trigger] apply_rows(buf, rows, cols, step)[k] == target(k),
        forall|j: int, i: int, k: int|
            #![trigger covers(j, i, k), apply_rows(buf, rows, cols, step)[k]]
            0 <= j < rows && 0 <= i < cols && covers(j, i, k) && 0 <= k < buf.len() ==> apply_rows(
                buf,
                rows,
                cols,
                step,
            )[k] == target(k),
    decreases rows,
{
    if rows > 0 {
        assert(keeps_len(step, rows - 1, cols as int, buf.len() as int));
        assert(keeps_target(step, rows - 1, cols as int, buf.len() as int, target));
        assert(sets_target(step, rows - 1, cols as int, buf.len() as int, target, covers));
        lemma_rows_targets(buf, (rows - 1) as nat, cols, step, target, covers);
        let prev = apply_rows(buf, (rows - 1) as nat, cols, step);
        lemma_row_targets(prev, rows - 1, rows as int, cols, cols as int, step, target, covers);
    }
}

/// The first `n` pixels of the RGBA image `img` are gray: their red, green
/// and blue bytes are equal.
pub open spec fn gray_pixels(img: Seq<u8>, n: int) -> bool {
    &&& 4 * n <= img.len()
    &&& forall|k: int| 0 <= k < n ==> img[4 * k] == #[trigger] img[4 * k + 1] && img[4 * k + 1] == img[4 * k + 2]
}

/// The Y plane of a gray image, one byte per pixel: its gray level.
pub open spec fn gray_levels(img: Seq<u8>) -> spec_fn(int) -> u8 {
    |k: int| img[4 * k]
}

/// The four bytes of the 2x2 block `(i, j)` of a plane of `w` bytes per line.
pub open spec fn block_bytes(w: int) -> spec_fn(int, int, int) -> bool {
    |j: int, i: int, k: int|
        k == (2 * j) * w + 2 * i || k == (2 * j) * w + 2 * i + 1 || k == (2 * j + 1) * w + 2 * i || k == (2
            * j + 1) * w + 2 * i + 1
}

proof fn lemma_gray_y(g: u8)
    ensures
        luma(spec_rgb_to_yuv_param(YuvType::ItuT871), g, g, g) == g,
        y_byte(spec_rgb_to_yuv_param(YuvType::ItuT871), g as int) == g,
{
    reveal(luma);
    assert((77 * g + 150 * g + 29 * g) / 256 == g as int) by (nonlinear_arith);
    assert((g * 128) / 128 == g as int) by (nonlinear_arith);
}

proof fn lemma_block_offsets(w: int, h: int, j: int, i: int)
    requires
        w >= 2,
        h >= 2,
        0 <= j < h / 2,
        0 <= i < w / 2,
    ensures
        block_top(4 * w, 4, j, i) == 4 * block_top(w, 1, j, i),
        block_bottom(4 * w, 4, j, i) == 4 * block_bottom(w, 1, j, i),
        0 <= block_top(w, 1, j, i),
        block_top(w, 1, j, i) + 1 < block_bottom(w, 1, j, i),
        block_bottom(w, 1, j, i) + 1 < w * h,
{
    assert((2 * j) * (4 * w) + 2 * 4 * i == 4 * ((2 * j) * w + 2 * i)) by (nonlinear_arith);
    assert((2 * j + 1) * (4 * w) + 2 * 4 * i == 4 * ((2 * j + 1) * w + 2 * i)) by (nonlinear_arith);
    assert(0 <= (2 * j) * w + 2 * i) by (nonlinear_arith)
        requires
            0 <= j,
            0 <= i,
            w >= 2,
    ;
    assert((2 * j + 1) * w == (2 * j) * w + w) by (nonlinear_arith);
    assert((2 * j + 1) * w + 2 * i + 1 < w * h) by (nonlinear_arith)
        requires
            0 <= j < h / 2,
            0 <= i < w / 2,
            w >= 2,
            h >= 2,
    ;
}

proof fn lemma_y_step(img: Seq<u8>, w: int, h: int, b: Seq<u8>, j: int, i: int)
    requires
        w >= 2,
        h >= 2,
        gray_pixels(img, w * h),
        0 <= j < h / 2,
        0 <= i < w / 2,
        w * h <= b.len(),
    ensures
        ({
            let p = spec_rgb_to_yuv_param(YuvType::ItuT871);
            let r = yuv420_y_step(p, img, 4, 4 * w, w)(b, j, i);
            &&& r.len() == b.len()
            &&& forall|k: int| 0 <= k < b.len() ==> r[k] == b[k] || r[k] == gray_levels(img)(k)
            &&& forall|k: int| block_bytes(w)(j, i, k) && 0 <= k < b.len() ==> r[k] == gray_levels(img)(k)
        }),
{
    let p = spec_rgb_to_yuv_param(YuvType::ItuT871);
    lemma_block_offsets(w, h, j, i);
    let yi1 = block_top(w, 1, j, i);
    let yi2 = block_bottom(w, 1, j, i);
    assert forall|kk: int| 0 <= kk < w * h implies #[trigger] y_px(p, img, 4 * kk) == img[4 * kk] by {
        assert(img[4 * kk] == img[4 * kk + 1] && img[4 * kk + 1] == img[4 * kk + 2]);
        lemma_gray_y(img[4 * kk]);
    }
    assert(4 * yi1 + 4 == 4 * (yi1 + 1));
    assert(4 * yi2 + 4 == 4 * (yi2 + 1));
    assert(y_px(p, img, 4 * yi1) == img[4 * yi1]);
    assert(y_px(p, img, 4 * (yi1 + 1)) == img[4 * (yi1 + 1)]);
    assert(y_px(p, img, 4 * yi2) == img[4 * yi2]);
    assert(y_px(p, img, 4 * (yi2 + 1)) == img[4 * (yi2 + 1)]);
    let t = gray_levels(img);
    let r1 = b.update(yi1, t(yi1));
    let r2 = r1.update(yi1 + 1, t(yi1 + 1));
    let r3 = r2.update(yi2, t(yi2));
    let r4 = r3.update(yi2 + 1, t(yi2 + 1));
    assert(yuv420_y_step(p, img, 4, 4 * w, w)(b, j, i) == r4);
    assert forall|k: int| 0 <= k < b.len() implies r4[k] == b[k] || r4[k] == t(k) by {}
    assert forall|k: int| block_bytes(w)(j, i, k) && 0 <= k < b.len() implies r4[k] == t(k) by {}
}

/// The chroma plane of a gray image: neutral everywhere.
pub open spec fn neutral_chroma() -> spec_fn(int) -> u8 {
    |k: int| 128u8
}

/// The two bytes of the block `(i, j)` in an interleaved chroma plane of
/// `w` bytes per line.
pub open spec fn pair_bytes(w: int) -> spec_fn(int, int, int) -> bool {
    |j: int, i: int, k: int| k == j * w + 2 * i || k == j * w + 2 * i + 1
}

proof fn lemma_gray_block_chroma(img: Seq<u8>, w: int, h: int, j: int, i: int)
    requires
        w >= 2,
        h >= 2,
        gray_pixels(img, w * h),
        0 <= j < h / 2,
        0 <= i < w / 2,
    ensures
        ({
            let p = spec_rgb_to_yuv_param(YuvType::ItuT871);
            let o1 = block_top(4 * w, 4, j, i);
            let o2 = block_bottom(4 * w, 4, j, i);
            &&& u_block(p, img, 4, o1, o2) == 128
            &&& v_block(p, img, 4, o1, o2) == 128
        }),
{
    let p = spec_rgb_to_yuv_param(YuvType::ItuT871);
    lemma_block_offsets(w, h, j, i);
    let yi1 = block_top(w, 1, j, i);
    let yi2 = block_bottom(w, 1, j, i);
    assert forall|kk: int| 0 <= kk < w * h implies #[trigger] luma_at(p, img, 4 * kk) == img[4 * kk + 2] && luma_at(
        p,
        img,
        4 * kk,
    ) == img[4 * kk] by {
        assert(img[4 * kk] == img[4 * kk + 1] && img[4 * kk + 1] == img[4 * kk + 2]);
        lemma_gray_y(img[4 * kk]);
    }
    assert(4 * yi1 + 4 == 4 * (yi1 + 1));
    assert(4 * yi2 + 4 == 4 * (yi2 + 1));
    assert(luma_at(p, img, 4 * yi1) == img[4 * yi1 + 2]);
    assert(luma_at(p, img, 4 * (yi1 + 1)) == img[4 * (yi1 + 1) + 2]);
    assert(luma_at(p, img, 4 * yi2) == img[4 * yi2 + 2]);
    assert(luma_at(p, img, 4 * (yi2 + 1)) == img[4 * (yi2 + 1) + 2]);
    assert(luma_at(p, img, 4 * yi1) == img[4 * yi1]);
    assert(luma_at(p, img, 4 * (yi1 + 1)) == img[4 * (yi1 + 1)]);
    assert(luma_at(p, img, 4 * yi2) == img[4 * yi2]);
    assert(luma_at(p, img, 4 * (yi2 + 1)) == img[4 * (yi2 + 1)]);
    let o1 = block_top(4 * w, 4, j, i);
    let o2 = block_bottom(4 * w, 4, j, i);
    assert(blue_diff_sum(p, img, 4, o1, o2) == 0);
    assert(red_diff_sum(p, img, 4, o1, o2) == 0);
    assert(chroma_avg_byte(p.cb_factor, 0) == 128);
    assert(chroma_avg_byte(p.cr_factor, 0) == 128);
}

proof fn lemma_uv_step(img: Seq<u8>, w: int, h: int, b: Seq<u8>, j: int, i: int)
    requires
        w >= 2,
        h >= 2,
        gray_pixels(img, w * h),
        0 <= j < h / 2,
        0 <= i < w / 2,
        w * (h / 2) <= b.len(),
    ensures
        ({
            let p = spec_rgb_to_yuv_param(YuvType::ItuT871);
            let r = nv12_uv_step(p, img, 4 * w, w)(b, j, i);
            &&& r.len() == b.len()
            &&& forall|k: int| 0 <= k < b.len() ==> r[k] == b[k] || r[k] == neutral_chroma()(k)
            &&& forall|k: int| pair_bytes(w)(j, i, k) && 0 <= k < b.len() ==> r[k] == neutral_chroma()(k)
        }),
{
    let p = spec_rgb_to_yuv_param(YuvType::ItuT871);
    lemma_gray_block_chroma(img, w, h, j, i);
    let c = j * w + 2 * i;
    assert(0 <= c && c + 1 < w * (h / 2)) by (nonlinear_arith)
        requires
            c == j * w + 2 * i,
            0 <= j < h / 2,
            0 <= i < w / 2,
            w >= 2,
    ;
    let r = b.update(c, 128u8).update(c + 1, 128u8);
    assert(nv12_uv_step(p, img, 4 * w, w)(b, j, i) == r);
    assert forall|k: int| 0 <= k < b.len() implies r[k] == b[k] || r[k] == neutral_chroma()(k) by {}
    assert forall|k: int| pair_bytes(w)(j, i, k) && 0 <= k < b.len() implies r[k] == neutral_chroma()(k) by {}
}

/// The colour bytes of the 2x2 block `(i, j)` of an RGBA image of `w`
/// pixels per line, four bytes per pixel.
pub open spec fn block_colour_bytes(w: int) -> spec_fn(int, int, int) -> bool {
    |j: int, i: int, k: int|
        {
            let o1 = block_top(4 * w, 4, j, i);
            let o2 = block_bottom(4 * w, 4, j, i);
            ||| o1 <= k < o1 + 3
            ||| o1 + 4 <= k < o1 + 7
            ||| o2 <= k < o2 + 3
            ||| o2 + 4 <= k < o2 + 7
        }
}

/// The image `img` itself, byte by byte.
pub open spec fn image_bytes(img: Seq<u8>) -> spec_fn(int) -> u8 {
    |k: int| img[k]
}

proof fn lemma_gray_rgb(yv: u8)
    ensures
        ({
            let q = spec_yuv_to_rgb_param(YuvType::ItuT871);
            let l = luma_scaled(q, yv);
            &&& clamp_byte(l + red_offset(q, 128u8)) == yv
            &&& clamp_byte(l - green_offset(q, 128u8, 128u8)) == yv
            &&& clamp_byte(l + blue_offset(q, 128u8)) == yv
        }),
{
    let q = spec_yuv_to_rgb_param(YuvType::ItuT871);
    assert(0 <= 128 * yv <= 32640) by (nonlinear_arith);
    assert(wrap_i16(128 * (yv - 0)) == 128 * yv);
    assert((128 * yv) / 128 == yv as int) by (nonlinear_arith);
}

proof fn lemma_rgba_step(img: Seq<u8>, ys: Seq<u8>, uvs: Seq<u8>, w: int, h: int, b: Seq<u8>, j: int, i: int)
    requires
        w >= 2,
        h >= 2,
        gray_pixels(img, w * h),
        0 <= j < h / 2,
        0 <= i < w / 2,
        4 * (w * h) <= b.len(),
        forall|k: int| #[trigger] block_bytes(w)(j, i, k) ==> 0 <= k < ys.len() && 4 * k < img.len() && ys[k] == img[4 * k],
        0 <= j * w + 2 * i,
        j * w + 2 * i + 1 < uvs.len(),
        uvs[j * w + 2 * i] == 128,
        uvs[j * w + 2 * i + 1] == 128,
    ensures
        ({
            let q = spec_yuv_to_rgb_param(YuvType::ItuT871);
            let r = yuv420_rgba_step(q, ys, uvs, uvs, w, w, w, 2, 1, 4 * w)(b, j, i);
            &&& r.len() == b.len()
            &&& forall|k: int| 0 <= k < b.len() ==> r[k] == b[k] || r[k] == image_bytes(img)(k)
            &&& forall|k: int| block_colour_bytes(w)(j, i, k) && 0 <= k < b.len() ==> r[k] == image_bytes(img)(k)
        }),
{
    let q = spec_yuv_to_rgb_param(YuvType::ItuT871);
    lemma_block_offsets(w, h, j, i);
    let y1 = block_top(w, 1, j, i);
    let y2 = block_bottom(w, 1, j, i);
    let o1 = block_top(4 * w, 4, j, i);
    let o2 = block_bottom(4 * w, 4, j, i);
    assert(block_bytes(w)(j, i, y1));
    assert(block_bytes(w)(j, i, y1 + 1));
    assert(block_bytes(w)(j, i, y2));
    assert(block_bytes(w)(j, i, y2 + 1));
    assert forall|kk: int| 0 <= kk < w * h implies #[trigger] img[4 * kk] == img[4 * kk + 1] && img[4 * kk]
        == img[4 * kk + 2] by {
        assert(img[4 * kk] == img[4 * kk + 1] && img[4 * kk + 1] == img[4 * kk + 2]);
    }
    assert(img[4 * y1] == img[4 * y1 + 1] && img[4 * y1] == img[4 * y1 + 2]);
    assert(img[4 * (y1 + 1)] == img[4 * (y1 + 1) + 1] && img[4 * (y1 + 1)] == img[4 * (y1 + 1) + 2]);
    assert(img[4 * y2] == img[4 * y2 + 1] && img[4 * y2] == img[4 * y2 + 2]);
    assert(img[4 * (y2 + 1)] == img[4 * (y2 + 1) + 1] && img[4 * (y2 + 1)] == img[4 * (y2 + 1) + 2]);
    lemma_gray_rgb(ys[y1]);
    lemma_gray_rgb(ys[y1 + 1]);
    lemma_gray_rgb(ys[y2]);
    lemma_gray_rgb(ys[y2 + 1]);
    let w1 = rgb_px_write(b, o1, q, ys[y1], 128u8, 128u8);
    let w2 = rgb_px_write(w1, o1 + 4, q, ys[y1 + 1], 128u8, 128u8);
    let w3 = rgb_px_write(w2, o2, q, ys[y2], 128u8, 128u8);
    let w4 = rgb_px_write(w3, o2 + 4, q, ys[y2 + 1], 128u8, 128u8);
    assert(yuv420_rgba_step(q, ys, uvs, uvs, w, w, w, 2, 1, 4 * w)(b, j, i) == w4);
    assert(o2 + 6 < 4 * (w * h));
    assert forall|k: int| 0 <= k < b.len() implies w4[k] == b[k] || w4[k] == image_bytes(img)(k) by {}
    assert forall|k: int| block_colour_bytes(w)(j, i, k) && 0 <= k < b.len() implies w4[k] == image_bytes(img)(k) by {}
}

proof fn lemma_pixel_block(w: int, h: int, k: int) -> (ji: (int, int))
    requires
        w >= 2,
        h >= 2,
        w % 2 == 0,
        h % 2 == 0,
        0 <= k < w * h,
    ensures
        0 <= ji.0 < h / 2,
        0 <= ji.1 < w / 2,
        block_bytes(w)(ji.0, ji.1, k),
{
    let r = k / w;
    let c = k % w;
    assert(k == w * r + c && 0 <= c < w && 0 <= r) by (nonlinear_arith)
        requires
            r == k / w,
            c == k % w,
            w >= 2,
            k >= 0,
    ;
    assert(r < h) by (nonlinear_arith)
        requires
            k == w * r + c,
            0 <= c < w,
            k < w * h,
            w >= 2,
    ;
    let j = r / 2;
    let i = c / 2;
    assert(k == (2 * j + r % 2) * w + 2 * i + c % 2) by (nonlinear_arith)
        requires
            k == w * r + c,
            j == r / 2,
            i == c / 2,
            r >= 0,
            c >= 0,
    ;
    assert((2 * j + r % 2) * w == (2 * j) * w + (r % 2) * w) by (nonlinear_arith);
    assert(r % 2 == 0 || r % 2 == 1);
    (j, i)
}

proof fn lemma_chroma_pair(w: int, h: int, k: int) -> (ji: (int, int))
    requires
        w >= 2,
        h >= 2,
        w % 2 == 0,
        h % 2 == 0,
        0 <= k < w * (h / 2),
    ensures
        0 <= ji.0 < h / 2,
        0 <= ji.1 < w / 2,
        pair_bytes(w)(ji.0, ji.1, k),
{
    let j = k / w;
    let m = k % w;
    assert(k == w * j + m && 0 <= m < w && 0 <= j) by (nonlinear_arith)
        requires
            j == k / w,
            m == k % w,
            w >= 2,
            k >= 0,
    ;
    assert(j < h / 2) by (nonlinear_arith)
        requires
            k == w * j + m,
            0 <= m < w,
            k < w * (h / 2),
            w >= 2,
    ;
    let i = m / 2;
    assert(m == 2 * i + m % 2);
    assert(j * w == w * j) by (nonlinear_arith);
    (j, i)
}

proof fn lemma_plane_facts(w: int, h: int, img: Seq<u8>, ys: Seq<u8>, uvs: Seq<u8>, j: int, i: int)
    requires
        w >= 2,
        h >= 2,
        0 <= j < h / 2,
        0 <= i < w / 2,
        ys.len() == w * h,
        uvs.len() == w * (h / 2),
        img.len() == 4 * (w * h),
        forall|k: int| 0 <= k < w * h ==> #[trigger] ys[k] == img[4 * k],
        forall|k: int| 0 <= k < w * (h / 2) ==> #[trigger] uvs[k] == 128,
    ensures
        forall|k: int| #[trigger] block_bytes(w)(j, i, k) ==> 0 <= k < ys.len() && 4 * k < img.len() && ys[k]
            == img[4 * k],
        0 <= j * w + 2 * i,
        j * w + 2 * i + 1 < uvs.len(),
        uvs[j * w + 2 * i] == 128,
        uvs[j * w + 2 * i + 1] == 128,
{
    lemma_block_offsets(w, h, j, i);
    assert(0 <= j * w + 2 * i && j * w + 2 * i + 1 < w * (h / 2)) by (nonlinear_arith)
        requires
            0 <= j < h / 2,
            0 <= i < w / 2,
            w >= 2,
    ;
    assert forall|k: int| #[trigger] block_bytes(w)(j, i, k) implies 0 <= k < ys.len() && 4 * k < img.len()
        && ys[k] == img[4 * k] by {
        assert(0 <= k < w * h);
    }
}

/// Law: a gray image (equal red, green and blue bytes at each pixel),
/// `w` x `h` with `w` and `h` even, converted to NV12 with the ITU-T T.871
/// coefficients and back, with packed planes (Y and UV of `w` bytes per
/// line, RGBA of `4 * w`), gives back its colour bytes; its Y plane holds
/// its gray levels and its chroma plane is neutral (128).
pub proof fn lemma_nv12_gray_round_trip(
    w: int,
    h: int,
    img: Seq<u8>,
    y0: Seq<u8>,
    uv0: Seq<u8>,
    out0: Seq<u8>,
)
    requires
        w >= 2,
        h >= 2,
        w % 2 == 0,
        h % 2 == 0,
        img.len() == 4 * (w * h),
        gray_pixels(img, w * h),
        y0.len() == w * h,
        uv0.len() == w * (h / 2),
        out0.len() == 4 * (w * h),
    ensures
        ({
            let p = spec_rgb_to_yuv_param(YuvType::ItuT871);
            let q = spec_yuv_to_rgb_param(YuvType::ItuT871);
            let ys = apply_rows(y0, (h / 2) as nat, (w / 2) as nat, yuv420_y_step(p, img, 4, 4 * w, w));
            let uvs = apply_rows(uv0, (h / 2) as nat, (w / 2) as nat, nv12_uv_step(p, img, 4 * w, w));
            let out = apply_rows(
                out0,
                (h / 2) as nat,
                (w / 2) as nat,
                yuv420_rgba_step(q, ys, uvs, uvs, w, w, w, 2, 1, 4 * w),
            );
            &&& forall|k: int| 0 <= k < w * h ==> ys[k] == img[4 * k]
            &&& forall|k: int| 0 <= k < w * (h / 2) ==> uvs[k] == 128
            &&& forall|k: int|
                0 <= k < w * h ==> #[trigger] out[4 * k] == img[4 * k] && out[4 * k + 1] == img[4 * k + 1]
                    && out[4 * k + 2] == img[4 * k + 2]
        }),
{
    let p = spec_rgb_to_yuv_param(YuvType::ItuT871);
    let q = spec_yuv_to_rgb_param(YuvType::ItuT871);
    let rows = (h / 2) as nat;
    let cols = (w / 2) as nat;
    // the Y plane
    let sy = yuv420_y_step(p, img, 4, 4 * w, w);
    let ty = gray_levels(img);
    let cy = block_bytes(w);
    assert forall|b: Seq<u8>, j: int, i: int| 0 <= j < rows && 0 <= i < cols && b.len() == w * h implies #[trigger] sy(
        b,
        j,
        i,
    ).len() == w * h by {
        lemma_y_step(img, w, h, b, j, i);
    }
    assert forall|b: Seq<u8>, j: int, i: int, k: int|
        0 <= j < rows && 0 <= i < cols && b.len() == w * h && 0 <= k < w * h && b[k] == ty(k) implies #[trigger] sy(
        b,
        j,
        i,
    )[k] == ty(k) by {
        lemma_y_step(img, w, h, b, j, i);
    }
    assert forall|b: Seq<u8>, j: int, i: int, k: int|
        0 <= j < rows && 0 <= i < cols && cy(j, i, k) && b.len() == w * h && 0 <= k < w * h implies #[trigger] sy(
        b,
        j,
        i,
    )[k] == ty(k) by {
        lemma_y_step(img, w, h, b, j, i);
    }
    lemma_rows_targets(y0, rows, cols, sy, ty, cy);
    let ys = apply_rows(y0, rows, cols, sy);
    assert forall|k: int| 0 <= k < w * h implies #[trigger] ys[k] == img[4 * k] by {
        let (j, i) = lemma_pixel_block(w, h, k);
        assert(cy(j, i, k));
    }
    // the chroma plane
    let suv = nv12_uv_step(p, img, 4 * w, w);
    let tuv = neutral_chroma();
    let cuv = pair_bytes(w);
    let luv = w * (h / 2);
    assert forall|b: Seq<u8>, j: int, i: int| 0 <= j < rows && 0 <= i < cols && b.len() == luv implies #[trigger] suv(
        b,
        j,
        i,
    ).len() == luv by {
        lemma_uv_step(img, w, h, b, j, i);
    }
    assert forall|b: Seq<u8>, j: int, i: int, k: int|
        0 <= j < rows && 0 <= i < cols && b.len() == luv && 0 <= k < luv && b[k] == tuv(k) implies #[trigger] suv(
        b,
        j,
        i,
    )[k] == tuv(k) by {
        lemma_uv_step(img, w, h, b, j, i);
    }
    assert forall|b: Seq<u8>, j: int, i: int, k: int|
        0 <= j < rows && 0 <= i < cols && cuv(j, i, k) && b.len() == luv && 0 <= k < luv implies #[trigger] suv(
        b,
        j,
        i,
    )[k] == tuv(k) by {
        lemma_uv_step(img, w, h, b, j, i);
    }
    lemma_rows_targets(uv0, rows, cols, suv, tuv, cuv);
    let uvs = apply_rows(uv0, rows, cols, suv);
    assert forall|k: int| 0 <= k < luv implies #[trigger] uvs[k] == 128 by {
        let (j, i) = lemma_chroma_pair(w, h, k);
        assert(cuv(j, i, k));
    }
    // back to RGBA
    let so = yuv420_rgba_step(q, ys, uvs, uvs, w, w, w, 2, 1, 4 * w);
    let to = image_bytes(img);
    let co = block_colour_bytes(w);
    let lo = 4 * (w * h);
    assert forall|b: Seq<u8>, j: int, i: int| 0 <= j < rows && 0 <= i < cols && b.len() == lo implies #[trigger] so(
        b,
        j,
        i,
    ).len() == lo by {
        lemma_plane_facts(w, h, img, ys, uvs, j, i);
        lemma_rgba_step(img, ys, uvs, w, h, b, j, i);
    }
    assert forall|b: Seq<u8>, j: int, i: int, k: int|
        0 <= j < rows && 0 <= i < cols && b.len() == lo && 0 <= k < lo && b[k] == to(k) implies #[trigger] so(
        b,
        j,
        i,
    )[k] == to(k) by {
        lemma_plane_facts(w, h, img, ys, uvs, j, i);
        lemma_rgba_step(img, ys, uvs, w, h, b, j, i);
    }
    assert forall|b: Seq<u8>, j: int, i: int, k: int|
        0 <= j < rows && 0 <= i < cols && co(j, i, k) && b.len() == lo && 0 <= k < lo implies #[trigger] so(
        b,
        j,
        i,
    )[k] == to(k) by {
        lemma_plane_facts(w, h, img, ys, uvs, j, i);
        lemma_rgba_step(img, ys, uvs, w, h, b, j, i);
    }
    lemma_rows_targets(out0, rows, cols, so, to, co);
    let out = apply_rows(out0, rows, cols, so);
    assert forall|k: int| 0 <= k < w * h implies #[trigger] out[4 * k] == img[4 * k] && out[4 * k + 1] == img[4
        * k + 1] && out[4 * k + 2] == img[4 * k + 2] by {
        let (j, i) = lemma_pixel_block(w, h, k);
        lemma_block_offsets(w, h, j, i);
        assert(co(j, i, 4 * k));
        assert(co(j, i, 4 * k + 1));
        assert(co(j, i, 4 * k + 2));
        assert(4 * k + 2 < lo);
    }
}

/// The colour byte `ch` (0 red, 1 green, 2 blue) of a pixel of luma `y`
/// and chroma `u` (blue difference) and `v` (red difference), with the
/// ITU-T T.871 coefficients: red moves with `v` alone, blue with `u`
/// alone, green against both.
pub open spec fn jpeg_channel(y: u8, u: u8, v: u8, ch: int) -> u8 {
    if ch == 0 {
        clamp_byte(y + (90 * (v - 128)) / 64)
    } else if ch == 1 {
        clamp_byte(y - (44 * (u - 128) + 91 * (v - 128)) / 128)
    } else {
        clamp_byte(y + (113 * (u - 128)) / 64)
    }
}

/// The colour byte `ch` of pixel `(c, r)` of a 4:2:0 image: its own luma,
/// and the chroma of its 2x2 block, read at `(r / 2) * u_stride + cstep *
/// (c / 2)` in `us` and `voff` further in `vs`.
pub open spec fn yuv420_pixel_channel(
    ys: Seq<u8>,
    us: Seq<u8>,
    vs: Seq<u8>,
    y_stride: int,
    u_stride: int,
    v_stride: int,
    cstep: int,
    voff: int,
    r: int,
    c: int,
    ch: int,
) -> u8 {
    jpeg_channel(
        ys[r * y_stride + c],
        us[(r / 2) * u_stride + cstep * (c / 2)],
        vs[(r / 2) * v_stride + cstep * (c / 2) + voff],
        ch,
    )
}

/// The byte at `k` of the RGBA image, of `w` pixels per line, converted
/// from a 4:2:0 image.
pub open spec fn yuv420_image_byte(
    ys: Seq<u8>,
    us: Seq<u8>,
    vs: Seq<u8>,
    y_stride: int,
    u_stride: int,
    v_stride: int,
    cstep: int,
    voff: int,
    w: int,
) -> spec_fn(int) -> u8 {
    |k: int|
        yuv420_pixel_channel(
            ys,
            us,
            vs,
            y_stride,
            u_stride,
            v_stride,
            cstep,
            voff,
            k / (4 * w),
            (k % (4 * w)) / 4,
            (k % (4 * w)) % 4,
        )
}

proof fn lemma_pixel_offset(w: int, r: int, c: int, ch: int)
    requires
        w >= 1,
        r >= 0,
        0 <= c < w,
        0 <= ch < 4,
    ensures
        (r * (4 * w) + 4 * c + ch) / (4 * w) == r,
        ((r * (4 * w) + 4 * c + ch) % (4 * w)) / 4 == c,
        ((r * (4 * w) + 4 * c + ch) % (4 * w)) % 4 == ch,
{
    lemma_fundamental_div_mod_converse(r * (4 * w) + 4 * c + ch, 4 * w, r, 4 * c + ch);
    lemma_fundamental_div_mod_converse(4 * c + ch, 4, c, ch);
}

proof fn lemma_jpeg_write(buf: Seq<u8>, o: int, yv: u8, u: u8, v: u8)
    ensures
        ({
            let q = spec_yuv_to_rgb_param(YuvType::ItuT871);
            let r = rgb_px_write(buf, o, q, yv, u, v);
            0 <= o && o + 2 < buf.len() ==> r == buf.update(o, jpeg_channel(yv, u, v, 0)).update(
                o + 1,
                jpeg_channel(yv, u, v, 1),
            ).update(o + 2, jpeg_channel(yv, u, v, 2))
        }),
{
    let q = spec_yuv_to_rgb_param(YuvType::ItuT871);
    assert(0 <= 128 * yv <= 32640) by (nonlinear_arith);
    assert(wrap_i16(128 * (yv - 0)) == 128 * yv);
    assert((128 * yv) / 128 == yv as int) by (nonlinear_arith);
    assert(luma_scaled(q, yv) == yv as int);
}

proof fn lemma_yuv420_rgba_step_targets(
    ys: Seq<u8>,
    us: Seq<u8>,
    vs: Seq<u8>,
    y_stride: int,
    u_stride: int,
    v_stride: int,
    cstep: int,
    voff: int,
    w: int,
    h: int,
    b: Seq<u8>,
    j: int,
    i: int,
)
    requires
        fits_pairs(b.len() as int, w, h, 4 * w, 8, 6),
        0 <= j < h / 2,
        0 <= i < w / 2,
    ensures
        ({
            let q = spec_yuv_to_rgb_param(YuvType::ItuT871);
            let t = yuv420_image_byte(ys, us, vs, y_stride, u_stride, v_stride, cstep, voff, w);
            let r = yuv420_rgba_step(q, ys, us, vs, y_stride, u_stride, v_stride, cstep, voff, 4 * w)(b, j, i);
            &&& r.len() == b.len()
            &&& forall|k: int| 0 <= k < b.len() ==> r[k] == b[k] || r[k] == t(k)
            &&& forall|k: int| block_colour_bytes(w)(j, i, k) && 0 <= k < b.len() ==> r[k] == t(k)
        }),
{
    let q = spec_yuv_to_rgb_param(YuvType::ItuT871);
    let t = yuv420_image_byte(ys, us, vs, y_stride, u_stride, v_stride, cstep, voff, w);
    let o1 = block_top(4 * w, 4, j, i);
    let o2 = block_bottom(4 * w, 4, j, i);
    assert(o1 == (2 * j) * (4 * w) + 4 * (2 * i) && o2 == (2 * j + 1) * (4 * w) + 4 * (2 * i)) by (nonlinear_arith)
        requires
            o1 == (2 * j) * (4 * w) + 2 * 4 * i,
            o2 == (2 * j + 1) * (4 * w) + 2 * 4 * i,
    ;
    assert(0 <= o1 && o1 + 6 < o2 && o2 + 6 < b.len()) by (nonlinear_arith)
        requires
            o1 == (2 * j) * (4 * w) + 4 * (2 * i),
            o2 == (2 * j + 1) * (4 * w) + 4 * (2 * i),
            0 <= j < h / 2,
            0 <= i < w / 2,
            (2 * (h / 2) - 1) * (4 * w) + 8 * (w / 2 - 1) + 6 < b.len(),
    ;
    let u = us[j * u_stride + cstep * i];
    let v = vs[j * v_stride + cstep * i + voff];
    let y1 = block_top(y_stride, 1, j, i);
    let y2 = block_bottom(y_stride, 1, j, i);
    assert((2 * j) / 2 == j && (2 * j + 1) / 2 == j && (2 * i) / 2 == i && (2 * i + 1) / 2 == i);
    assert(y1 == (2 * j) * y_stride + 2 * i && y2 == (2 * j + 1) * y_stride + 2 * i);
    assert forall|ch: int| 0 <= ch < 3 implies #[trigger] t(o1 + ch) == jpeg_channel(ys[y1], u, v, ch) by {
        lemma_pixel_offset(w, 2 * j, 2 * i, ch);
    }
    assert forall|ch: int| 0 <= ch < 3 implies #[trigger] t(o1 + 4 + ch) == jpeg_channel(ys[y1 + 1], u, v, ch) by {
        lemma_pixel_offset(w, 2 * j, 2 * i + 1, ch);
        assert(o1 + 4 + ch == (2 * j) * (4 * w) + 4 * (2 * i + 1) + ch);
    }
    assert forall|ch: int| 0 <= ch < 3 implies #[trigger] t(o2 + ch) == jpeg_channel(ys[y2], u, v, ch) by {
        lemma_pixel_offset(w, 2 * j + 1, 2 * i, ch);
    }
    assert forall|ch: int| 0 <= ch < 3 implies #[trigger] t(o2 + 4 + ch) == jpeg_channel(ys[y2 + 1], u, v, ch) by {
        lemma_pixel_offset(w, 2 * j + 1, 2 * i + 1, ch);
        assert(o2 + 4 + ch == (2 * j + 1) * (4 * w) + 4 * (2 * i + 1) + ch);
    }
    assert(t(o1 + 0) == jpeg_channel(ys[y1], u, v, 0) && t(o1 + 4 + 0) == jpeg_channel(ys[y1 + 1], u, v, 0));
    assert(t(o2 + 0) == jpeg_channel(ys[y2], u, v, 0) && t(o2 + 4 + 0) == jpeg_channel(ys[y2 + 1], u, v, 0));
    assert(t(o1 + 4 + 1) == jpeg_channel(ys[y1 + 1], u, v, 1) && t(o1 + 4 + 2) == jpeg_channel(ys[y1 + 1], u, v, 2));
    assert(t(o2 + 4 + 1) == jpeg_channel(ys[y2 + 1], u, v, 1) && t(o2 + 4 + 2) == jpeg_channel(ys[y2 + 1], u, v, 2));
    assert(t(o1) == jpeg_channel(ys[y1], u, v, 0) && t(o1 + 1) == jpeg_channel(ys[y1], u, v, 1) && t(o1 + 2)
        == jpeg_channel(ys[y1], u, v, 2));
    assert(t(o1 + 4) == jpeg_channel(ys[y1 + 1], u, v, 0) && t(o1 + 4 + 1) == jpeg_channel(ys[y1 + 1], u, v, 1)
        && t(o1 + 4 + 2) == jpeg_channel(ys[y1 + 1], u, v, 2));
    assert(t(o2) == jpeg_channel(ys[y2], u, v, 0) && t(o2 + 1) == jpeg_channel(ys[y2], u, v, 1) && t(o2 + 2)
        == jpeg_channel(ys[y2], u, v, 2));
    assert(t(o2 + 4) == jpeg_channel(ys[y2 + 1], u, v, 0) && t(o2 + 4 + 1) == jpeg_channel(ys[y2 + 1], u, v, 1)
        && t(o2 + 4 + 2) == jpeg_channel(ys[y2 + 1], u, v, 2));
    let w1 = rgb_px_write(b, o1, q, ys[y1], u, v);
    lemma_jpeg_write(b, o1, ys[y1], u, v);
    let w2 = rgb_px_write(w1, o1 + 4, q, ys[y1 + 1], u, v);
    lemma_jpeg_write(w1, o1 + 4, ys[y1 + 1], u, v);
    let w3 = rgb_px_write(w2, o2, q, ys[y2], u, v);
    lemma_jpeg_write(w2, o2, ys[y2], u, v);
    let w4 = rgb_px_write(w3, o2 + 4, q, ys[y2 + 1], u, v);
    lemma_jpeg_write(w3, o2 + 4, ys[y2 + 1], u, v);
    assert(yuv420_rgba_step(q, ys, us, vs, y_stride, u_stride, v_stride, cstep, voff, 4 * w)(b, j, i) == w4);
    assert forall|k: int| 0 <= k < b.len() implies w4[k] == b[k] || w4[k] == t(k) by {}
    assert forall|k: int| block_colour_bytes(w)(j, i, k) && 0 <= k < b.len() implies w4[k] == t(k) by {}
}

/// Law: a 4:2:0 image converted to RGBA with the ITU-T T.871 coefficients,
/// `w` pixels per line, gives each pixel of its 2x2 blocks the colour that
/// its own luma and the chroma of its block make: red from the luma and the
/// `vs` byte, blue from the luma and the `us` byte, green from all three.
pub proof fn lemma_yuv420_rgba_pixels(
    ys: Seq<u8>,
    us: Seq<u8>,
    vs: Seq<u8>,
    y_stride: int,
    u_stride: int,
    v_stride: int,
    cstep: int,
    voff: int,
    w: int,
    h: int,
    init: Seq<u8>,
)
    requires
        w >= 0,
        h >= 0,
        fits_pairs(init.len() as int, w, h, 4 * w, 8, 6),
    ensures
        forall|r: int, c: int, ch: int|
            0 <= r < 2 * (h / 2) && 0 <= c < 2 * (w / 2) && 0 <= ch < 3 ==> apply_rows(
                init,
                (h / 2) as nat,
                (w / 2) as nat,
                yuv420_rgba_step(
                    spec_yuv_to_rgb_param(YuvType::ItuT871),
                    ys,
                    us,
                    vs,
                    y_stride,
                    u_stride,
                    v_stride,
                    cstep,
                    voff,
                    4 * w,
                ),
            )[r * (4 * w) + 4 * c + ch] == #[trigger] yuv420_pixel_channel(
                ys,
                us,
                vs,
                y_stride,
                u_stride,
                v_stride,
                cstep,
                voff,
                r,
                c,
                ch,
            ),
{
    let q = spec_yuv_to_rgb_param(YuvType::ItuT871);
    let rows = (h / 2) as nat;
    let cols = (w / 2) as nat;
    let step = yuv420_rgba_step(q, ys, us, vs, y_stride, u_stride, v_stride, cstep, voff, 4 * w);
    let t = yuv420_image_byte(ys, us, vs, y_stride, u_stride, v_stride, cstep, voff, w);
    let cov = block_colour_bytes(w);
    let len = init.len() as int;
    assert forall|b: Seq<u8>, j: int, i: int| 0 <= j < rows && 0 <= i < cols && b.len() == len implies #[trigger] step(
        b,
        j,
        i,
    ).len() == len by {
        lemma_yuv420_rgba_step_targets(ys, us, vs, y_stride, u_stride, v_stride, cstep, voff, w, h, b, j, i);
    }
    assert forall|b: Seq<u8>, j: int, i: int, k: int|
        0 <= j < rows && 0 <= i < cols && b.len() == len && 0 <= k < len && b[k] == t(k) implies #[trigger] step(
        b,
        j,
        i,
    )[k] == t(k) by {
        lemma_yuv420_rgba_step_targets(ys, us, vs, y_stride, u_stride, v_stride, cstep, voff, w, h, b, j, i);
    }
    assert forall|b: Seq<u8>, j: int, i: int, k: int|
        0 <= j < rows && 0 <= i < cols && cov(j, i, k) && b.len() == len && 0 <= k < len implies #[trigger] step(
        b,
        j,
        i,
    )[k] == t(k) by {
        lemma_yuv420_rgba_step_targets(ys, us, vs, y_stride, u_stride, v_stride, cstep, voff, w, h, b, j, i);
    }
    lemma_rows_targets(init, rows, cols, step, t, cov);
    let out = apply_rows(init, rows, cols, step);
    assert forall|r: int, c: int, ch: int|
        0 <= r < 2 * (h / 2) && 0 <= c < 2 * (w / 2) && 0 <= ch < 3 implies out[r * (4 * w) + 4 * c + ch]
        == #[trigger] yuv420_pixel_channel(ys, us, vs, y_stride, u_stride, v_stride, cstep, voff, r, c, ch) by {
        let k = r * (4 * w) + 4 * c + ch;
        let j = r / 2;
        let i = c / 2;
        lemma_pixel_offset(w, r, c, ch);
        assert(r == 2 * j || r == 2 * j + 1);
        assert(c == 2 * i || c == 2 * i + 1);
        assert(0 <= j < rows && 0 <= i < cols);
        let o1 = block_top(4 * w, 4, j, i);
        let o2 = block_bottom(4 * w, 4, j, i);
        assert(o1 == (2 * j) * (4 * w) + 4 * (2 * i) && o2 == (2 * j + 1) * (4 * w) + 4 * (2 * i)) by (nonlinear_arith)
            requires
                o1 == (2 * j) * (4 * w) + 2 * 4 * i,
                o2 == (2 * j + 1) * (4 * w) + 2 * 4 * i,
        ;
        assert((2 * j + 1) * (4 * w) == (2 * j) * (4 * w) + 4 * w) by (nonlinear_arith);
        assert(cov(j, i, k));
        assert(0 <= k < len) by (nonlinear_arith)
            requires
                k == r * (4 * w) + 4 * c + ch,
                0 <= r < 2 * (h / 2),
                0 <= c < 2 * (w / 2),
                0 <= ch < 3,
                (2 * (h / 2) - 1) * (4 * w) + 8 * (w / 2 - 1) + 6 < len,
        ;
    }
}

/// Law: the colour that the ITU-T T.871 coefficients give a pixel of luma
/// `y` and chroma `u`, `v` is the one `jpeg_channel` names.
pub proof fn lemma_jpeg_rgb_of(y: u8, u: u8, v: u8)
    ensures
        rgb_of(spec_yuv_to_rgb_param(YuvType::ItuT871), y, u, v) == (
            jpeg_channel(y, u, v, 0),
            jpeg_channel(y, u, v, 1),
            jpeg_channel(y, u, v, 2),
        ),
{
    let q = spec_yuv_to_rgb_param(YuvType::ItuT871);
    assert(0 <= 128 * y <= 32640) by (nonlinear_arith);
    assert(wrap_i16(128 * (y - 0)) == 128 * y);
    assert((128 * y) / 128 == y as int) by (nonlinear_arith);
    assert(luma_scaled(q, y) == y as int);
}

} // verus!
