//! How the X11 client puts a frame into its pixmap: in one request when it
//! fits under the X server's request size, else in bands of whole lines,
//! each under that size rounded down to 64 KiB.

use vstd::prelude::*;

verus! {

/// Bytes of a `PutImage` request besides its pixels.
pub const PUT_IMAGE_OVERHEAD: usize = 28;

/// A band of an image, put in one request: `lines` lines from
/// `first_line`, the bytes `start..end` of the image.
#[derive(Debug, Clone, Copy, PartialEq, Eq)]
pub struct ImageChunk {
    pub first_line: usize,
    pub lines: usize,
    pub start: usize,
    pub end: usize,
}

/// The most pixel bytes of a band: what a request leaves for pixels,
/// rounded down to a multiple of 64 KiB.
pub open spec fn chunk_max_size(max_request_size: int) -> int {
    ((max_request_size - PUT_IMAGE_OVERHEAD) / 0x10000) * 0x10000
}

/// The most lines of a band, for lines of `width` pixels of four bytes.
pub open spec fn chunk_max_lines(max_request_size: int, width: int) -> int {
    chunk_max_size(max_request_size) / (4 * width)
}

/// The bands of the lines from `line` to `height`, of at most `max_lines`
/// lines of `row` bytes each, in order.
pub open spec fn chunk_plan(line: int, height: int, max_lines: int, row: int) -> Seq<ImageChunk>
    decreases height - line,
{
    if line >= height || max_lines <= 0 {
        Seq::empty()
    } else {
        let n = if height - line > max_lines {
            max_lines
        } else {
            height - line
        };
        seq![
            ImageChunk {
                first_line: line as usize,
                lines: n as usize,
                start: (line * row) as usize,
                end: ((line + n) * row) as usize,
            },
        ] + chunk_plan(line + n, height, max_lines, row)
    }
}

/// The requests that put an image of `img_len` bytes, `width` x `height`
/// pixels: one for the whole image when it is smaller than what a request
/// leaves for pixels; else bands of as many lines as fit.
pub open spec fn spec_put_image_chunks(img_len: int, width: int, height: int, max_request_size: int) -> Seq<
    ImageChunk,
> {
    if img_len < max_request_size - PUT_IMAGE_OVERHEAD {
        seq![ImageChunk { first_line: 0, lines: height as usize, start: 0, end: img_len as usize }]
    } else {
        chunk_plan(0, height, chunk_max_lines(max_request_size, width), 4 * width)
    }
}

/// The image can be put: the request size leaves room for the overhead;
/// when it must be cut, its lines are not empty, a band holds a line at
/// least when there are lines, the length of a line fits in a `usize`, and
/// the image holds all of its lines.
pub open spec fn put_image_ok(img_len: int, width: int, height: int, max_request_size: int) -> bool {
    &&& max_request_size >= PUT_IMAGE_OVERHEAD
    &&& img_len >= max_request_size - PUT_IMAGE_OVERHEAD ==> {
        &&& width > 0
        &&& 4 * width <= usize::MAX
        &&& height > 0 ==> chunk_max_lines(max_request_size, width) > 0
        &&& height * width * 4 <= img_len
    }
}

proof fn lemma_round_down(m: usize)
    ensures
        (m & !0xFFFFusize) as int == (m as int / 0x10000) * 0x10000,
{
    assert((m & !0xFFFFusize) == m - (m % 0x10000)) by (bit_vector);
    assert(m as int == (m as int / 0x10000) * 0x10000 + m as int % 0x10000) by (nonlinear_arith);
}

proof fn lemma_mul_mono(a: int, b: int, c: int)
    requires
        0 <= a <= b,
        0 <= c,
    ensures
        a * c <= b * c,
{
    assert(a * c <= b * c) by (nonlinear_arith)
        requires
            0 <= a <= b,
            0 <= c,
    ;
}

proof fn lemma_plan_step(line: int, height: int, max_lines: int, row: int)
    requires
        0 <= line < height,
        max_lines > 0,
    ensures
        ({
            let n = if height - line > max_lines {
                max_lines
            } else {
                height - line
            };
            chunk_plan(line, height, max_lines, row) == seq![
                ImageChunk {
                    first_line: line as usize,
                    lines: n as usize,
                    start: (line * row) as usize,
                    end: ((line + n) * row) as usize,
                },
            ] + chunk_plan(line + n, height, max_lines, row)
        }),
{
}

/// The requests that put an image of `img_len` bytes, `width` x `height`
/// pixels, under the X server's request size `max_request_size`.
pub fn put_image_chunks(img_len: usize, width: u32, height: u32, max_request_size: usize) -> (r: Vec<
    ImageChunk,
>)
    requires
        put_image_ok(img_len as int, width as int, height as int, max_request_size as int),
    ensures
        r@ == spec_put_image_chunks(img_len as int, width as int, height as int, max_request_size as int),
{
    let mut r: Vec<ImageChunk> = Vec::new();
    if img_len < max_request_size - PUT_IMAGE_OVERHEAD {
        r.push(ImageChunk { first_line: 0, lines: height as usize, start: 0, end: img_len });
        return r;
    }
    let round_size: usize = 0x10000 - 1;
    let max_size = (max_request_size - PUT_IMAGE_OVERHEAD) & (!round_size);
    proof {
        lemma_round_down((max_request_size - PUT_IMAGE_OVERHEAD) as usize);
    }
    assert(max_size as int == chunk_max_size(max_request_size as int));
    let h = height as usize;
    let w = width as usize;
    assert(h * w * 4 <= img_len);
    let row: usize = 4 * w;
    let max_lines = max_size / row;
    assert(max_lines as int == chunk_max_lines(max_request_size as int, width as int));
    let ghost total = chunk_plan(0, h as int, max_lines as int, row as int);
    let mut cur_line: usize = 0;
    while cur_line < h
        invariant
            h * w * 4 <= img_len,
            row == 4 * w,
            w > 0,
            cur_line <= h,
            h > 0 ==> max_lines > 0,
            total == chunk_plan(0, h as int, max_lines as int, row as int),
            r@ + chunk_plan(cur_line as int, h as int, max_lines as int, row as int) == total,
        decreases h - cur_line,
    {
        let band_lines = if h - cur_line > max_lines {
            max_lines
        } else {
            h - cur_line
        };
        proof {
            lemma_plan_step(cur_line as int, h as int, max_lines as int, row as int);
            lemma_mul_mono(cur_line as int, h as int, row as int);
            lemma_mul_mono((cur_line + band_lines) as int, h as int, row as int);
            assert(h * row == h * w * 4) by (nonlinear_arith)
                requires
                    row == 4 * w,
            ;
        }
        let start = cur_line * row;
        let end = (cur_line + band_lines) * row;
        let ghost rest = chunk_plan((cur_line + band_lines) as int, h as int, max_lines as int, row as int);
        let chunk = ImageChunk { first_line: cur_line, lines: band_lines, start, end };
        let ghost before = r@;
        r.push(chunk);
        assert(r@ + rest =~= before + (seq![chunk] + rest));
        cur_line = cur_line + band_lines;
    }
    assert(chunk_plan(h as int, h as int, max_lines as int, row as int) =~= Seq::<ImageChunk>::empty());
    assert(r@ =~= total);
    r
}

proof fn lemma_plan_props(line: int, height: int, max_lines: int, row: int)
    requires
        0 <= line <= height,
        max_lines > 0,
        row >= 0,
        height <= usize::MAX,
        height * row <= usize::MAX,
    ensures
        ({
            let p = chunk_plan(line, height, max_lines, row);
            &&& line == height ==> p.len() == 0
            &&& line < height ==> p.len() > 0 && p[0].first_line == line && p.last().first_line
                + p.last().lines == height
            &&& forall|k: int|
                0 <= k < p.len() ==> 0 < #[trigger] p[k].lines <= max_lines && line <= p[k].first_line
                    && p[k].first_line + p[k].lines <= height && p[k].start == p[k].first_line * row
                    && p[k].end == (p[k].first_line + p[k].lines) * row
            &&& forall|k: int|
                0 <= k < p.len() - 1 ==> #[trigger] p[k + 1].first_line == p[k].first_line + p[k].lines
        }),
    decreases height - line,
{
    if line < height {
        let n = if height - line > max_lines {
            max_lines
        } else {
            height - line
        };
        lemma_plan_props(line + n, height, max_lines, row);
        lemma_mul_mono(line, height, row);
        lemma_mul_mono(line + n, height, row);
        let p = chunk_plan(line, height, max_lines, row);
        let q = chunk_plan(line + n, height, max_lines, row);
        assert(p == seq![
            ImageChunk {
                first_line: line as usize,
                lines: n as usize,
                start: (line * row) as usize,
                end: ((line + n) * row) as usize,
            },
        ] + q);
        assert forall|k: int| 1 <= k < p.len() implies #[trigger] p[k] == q[k - 1] by {}
        assert forall|k: int| 0 <= k < p.len() - 1 implies #[trigger] p[k + 1].first_line == p[k].first_line
            + p[k].lines by {
            assert(p[k + 1] == q[k]);
            if k > 0 {
                assert(p[k] == q[k - 1]);
                assert(q[(k - 1) + 1].first_line == q[k - 1].first_line + q[k - 1].lines);
            } else {
                assert(q[0].first_line == line + n);
            }
        }
        if q.len() > 0 {
            assert(p.last() == q.last());
        }
    }
}

/// When an image must be cut, its bands cover its lines in order, each
/// band starting where the one before ends, from the first line to the
/// last; each band is a non-empty run of whole lines, lies within the
/// image, and leaves its request within the X server's request size.
pub proof fn lemma_put_image_chunks_tile(img_len: int, width: int, height: int, max_request_size: int)
    requires
        put_image_ok(img_len, width, height, max_request_size),
        img_len >= max_request_size - PUT_IMAGE_OVERHEAD,
        0 < height,
        img_len <= usize::MAX,
    ensures
        ({
            let p = spec_put_image_chunks(img_len, width, height, max_request_size);
            &&& p.len() > 0
            &&& p[0].first_line == 0
            &&& p.last().first_line + p.last().lines == height
            &&& forall|k: int|
                0 <= k < p.len() - 1 ==> #[trigger] p[k + 1].first_line == p[k].first_line + p[k].lines
            &&& forall|k: int|
                0 <= k < p.len() ==> 0 < #[trigger] p[k].lines && p[k].start == p[k].first_line * 4 * width
                    && p[k].end == (p[k].first_line + p[k].lines) * 4 * width && p[k].end <= img_len
                    && p[k].end - p[k].start + PUT_IMAGE_OVERHEAD <= max_request_size
        }),
{
    let row = 4 * width;
    let size = chunk_max_size(max_request_size);
    let max_lines = chunk_max_lines(max_request_size, width);
    assert(height * row == height * width * 4) by (nonlinear_arith)
        requires
            row == 4 * width,
    ;
    assert(height <= height * width * 4) by (nonlinear_arith)
        requires
            height > 0,
            width > 0,
    ;
    lemma_plan_props(0, height, max_lines, row);
    assert(max_lines * row <= size) by (nonlinear_arith)
        requires
            max_lines == size / row,
            row > 0,
    ;
    assert(size <= max_request_size - PUT_IMAGE_OVERHEAD) by (nonlinear_arith)
        requires
            size == ((max_request_size - PUT_IMAGE_OVERHEAD) / 0x10000) * 0x10000,
            max_request_size - PUT_IMAGE_OVERHEAD >= 0,
    ;
    let p = chunk_plan(0, height, max_lines, row);
    assert forall|k: int| 0 <= k < p.len() implies 0 < #[trigger] p[k].lines && p[k].start == p[k].first_line
        * 4 * width && p[k].end == (p[k].first_line + p[k].lines) * 4 * width && p[k].end <= img_len
        && p[k].end - p[k].start + PUT_IMAGE_OVERHEAD <= max_request_size by {
        let f = p[k].first_line as int;
        let l = p[k].lines as int;
        lemma_mul_mono(f + l, height, row);
        lemma_mul_mono(l, max_lines, row);
        assert(f * row == f * 4 * width && (f + l) * row == (f + l) * 4 * width && (f + l) * row - f * row
            == l * row) by (nonlinear_arith)
            requires
                row == 4 * width,
        ;
    }
}

} // verus!
