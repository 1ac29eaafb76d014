//! Drawing into the client's RGBA image, for the statistics shown over it:
//! single pixels and clipped rectangles.

use crate::yuv::{apply_row, apply_rows, lemma_rgb_grid_rows, rgb_grid_step};
use vstd::prelude::*;

verus! {

/// The image is `width` x `height` pixels of four bytes, and its byte
/// offsets fit in 32 bits.
pub open spec fn image_ok(len: int, width: u32, height: u32) -> bool {
    4 * width * height <= u32::MAX && 4 * width * height <= len
}

/// Sets the colour bytes of the pixel `(x, y)`, when it is in the image;
/// the fourth byte of the pixel is left alone.
pub fn draw_pixel(buffer: &mut [u8], width: u32, height: u32, x: i32, y: i32, rgb: (u8, u8, u8))
    requires
        image_ok(old(buffer)@.len() as int, width, height),
    ensures
        ({
            let inside = 0 <= x < width && 0 <= y < height;
            let o = (y * width + x) * 4;
            &&& inside ==> final(buffer)@ == old(buffer)@.update(o, rgb.0).update(o + 1, rgb.1).update(
                o + 2,
                rgb.2,
            )
            &&& !inside ==> final(buffer)@ == old(buffer)@
        }),
{
    if x < 0 || y < 0 {
        return;
    }
    let xu = x as u32;
    let yu = y as u32;
    if xu < width && yu < height {
        assert((yu * width + xu) * 4 + 2 < 4 * width * height) by (nonlinear_arith)
            requires
                xu < width,
                yu < height,
        ;
        let index = ((yu * width + xu) * 4) as usize;
        buffer[index] = rgb.0;
        buffer[index + 1] = rgb.1;
        buffer[index + 2] = rgb.2;
    }
}

/// The part of a rectangle of `w` x `h` pixels at `(x, y)` kept in an
/// image of `width` x `height`: `(x, y)` must be in the image, and the
/// rectangle is cut at its right and bottom edges.
pub open spec fn clipped(width: u32, height: u32, x: i32, y: i32, w: u32, h: u32) -> Option<(u32, u32)> {
    if x < 0 || y < 0 || x >= width || y >= height {
        None
    } else {
        Some(
            (
                if w > width - x {
                    (width - x) as u32
                } else {
                    w
                },
                if h > height - y {
                    (height - y) as u32
                } else {
                    h
                },
            ),
        )
    }
}

/// Fills a rectangle with a colour, cut at the right and bottom edges of
/// the image; a rectangle whose corner is not in the image (even partly on
/// it) draws nothing. The fourth byte of each pixel is left alone.
pub fn fill_rect(
    buffer: &mut [u8],
    width: u32,
    height: u32,
    x: i32,
    y: i32,
    w: u32,
    h: u32,
    rgb: (u8, u8, u8),
)
    requires
        image_ok(old(buffer)@.len() as int, width, height),
    ensures
        match clipped(width, height, x, y, w, h) {
            None => final(buffer)@ == old(buffer)@,
            Some((mw, mh)) => final(buffer)@ == apply_rows(
                old(buffer)@,
                mh as nat,
                mw as nat,
                rgb_grid_step(4 * (y * width + x), 4 * width, |j: int, i: int| rgb),
            ),
        },
{
    if x < 0 || y < 0 {
        return;
    }
    let xu = x as u32;
    let yu = y as u32;
    if xu >= width || yu >= height {
        return;
    }
    let remaining_width = width - xu;
    let remaining_height = height - yu;
    let max_width = if w > remaining_width {
        remaining_width
    } else {
        w
    };
    let max_height = if h > remaining_height {
        remaining_height
    } else {
        h
    };
    let ghost f = |j: int, i: int| rgb;
    let ghost base = 4 * (y * width + x);
    let ghost st = rgb_grid_step(base, 4 * width as int, f);
    let ghost b0 = buffer@;
    let mut j: u32 = 0;
    while j < max_height
        invariant
            j <= max_height,
            xu == x,
            yu == y,
            xu < width,
            yu + max_height <= height,
            xu + max_width <= width,
            image_ok(b0.len() as int, width, height),
            buffer@.len() == b0.len(),
            base == 4 * (y * width + x),
            st == rgb_grid_step(base, 4 * width as int, f),
            f == (|j: int, i: int| rgb),
            buffer@ == apply_rows(b0, j as nat, max_width as nat, st),
        decreases max_height - j,
    {
        assert((yu + j) * width + xu + max_width <= width * height) by (nonlinear_arith)
            requires
                yu + j < height,
                xu + max_width <= width,
        ;
        assert(((yu + j) * width + xu) * 4 <= 4 * width * height) by (nonlinear_arith)
            requires
                (yu + j) * width + xu + max_width <= width * height,
        ;
        let mut index = (((yu + j) * width + xu) * 4) as usize;
        let mut i: u32 = 0;
        while i < max_width
            invariant
                i <= max_width,
                j < max_height,
                xu == x,
                yu == y,
                yu + max_height <= height,
                xu + max_width <= width,
                (yu + j) * width + xu + max_width <= width * height,
                image_ok(b0.len() as int, width, height),
                buffer@.len() == b0.len(),
                index == ((yu + j) * width + xu + i) * 4,
                base == 4 * (y * width + x),
                st == rgb_grid_step(base, 4 * width as int, f),
                f == (|j: int, i: int| rgb),
                buffer@ == apply_row(apply_rows(b0, j as nat, max_width as nat, st), j as int, i as nat, st),
            decreases max_width - i,
        {
            let ghost before = buffer@;
            assert(index + 2 < buffer@.len()) by (nonlinear_arith)
                requires
                    index == ((yu + j) * width + xu + i) * 4,
                    i < max_width,
                    (yu + j) * width + xu + max_width <= width * height,
                    4 * width * height <= buffer@.len(),
            ;
            assert(index == base + j * (4 * width) + 4 * i) by (nonlinear_arith)
                requires
                    index == ((yu + j) * width + xu + i) * 4,
                    base == 4 * (y * width + x),
                    xu == x,
                    yu == y,
            ;
            buffer[index] = rgb.0;
            buffer[index + 1] = rgb.1;
            buffer[index + 2] = rgb.2;
            assert(buffer@ == st(before, j as int, i as int));
            assert(index + 4 <= 4 * width * height) by (nonlinear_arith)
                requires
                    index == ((yu + j) * width + xu + i) * 4,
                    i < max_width,
                    (yu + j) * width + xu + max_width <= width * height,
            ;
            index = index + 4;
            i = i + 1;
        }
        j = j + 1;
    }
}

/// Law: every pixel of the clipped rectangle gets the colour.
pub proof fn lemma_fill_rect_pixels(
    buf: Seq<u8>,
    width: u32,
    height: u32,
    x: i32,
    y: i32,
    w: u32,
    h: u32,
    rgb: (u8, u8, u8),
)
    requires
        image_ok(buf.len() as int, width, height),
        clipped(width, height, x, y, w, h) is Some,
    ensures
        ({
            let (mw, mh) = clipped(width, height, x, y, w, h)->0;
            let r = apply_rows(
                buf,
                mh as nat,
                mw as nat,
                rgb_grid_step(4 * (y * width + x), 4 * width, |j: int, i: int| rgb),
            );
            forall|row: int, col: int|
                y <= row < y + mh && x <= col < x + mw ==> {
                    let o = #[trigger] ((row * width + col) * 4);
                    &&& r[o] == rgb.0
                    &&& r[o + 1] == rgb.1
                    &&& r[o + 2] == rgb.2
                }
        }),
{
    let (mw, mh) = clipped(width, height, x, y, w, h)->0;
    let f = |j: int, i: int| rgb;
    let base = 4 * (y * width + x);
    assert(base >= 0) by (nonlinear_arith)
        requires
            x >= 0,
            y >= 0,
            width >= 0,
            base == 4 * (y * width + x),
    ;
    if mh > 0 {
        assert(base + (mh - 1) * (4 * width) + 4 * mw <= buf.len()) by (nonlinear_arith)
            requires
                base == 4 * (y * width + x),
                y + mh <= height,
                x + mw <= width,
                mh > 0,
                4 * width * height <= buf.len(),
                x >= 0,
                y >= 0,
        ;
    }
    lemma_rgb_grid_rows(buf, base, mh as nat, mw as nat, 4 * width as int, f);
    let r = apply_rows(buf, mh as nat, mw as nat, rgb_grid_step(base, 4 * width as int, f));
    assert forall|row: int, col: int| y <= row < y + mh && x <= col < x + mw implies {
        let o = #[trigger] ((row * width + col) * 4);
        &&& r[o] == rgb.0
        &&& r[o + 1] == rgb.1
        &&& r[o + 2] == rgb.2
    } by {
        let j = row - y;
        let i = col - x;
        assert(f(j, i) == rgb);
        assert((row * width + col) * 4 == base + j * (4 * width) + 4 * i) by (nonlinear_arith)
            requires
                j == row - y,
                i == col - x,
                base == 4 * (y * width + x),
        ;
    }
}

} // verus!
