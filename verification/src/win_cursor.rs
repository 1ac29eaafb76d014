//! The cursor image of the Windows client: the server's RGBA pixels become
//! BGRA, padded with transparent pixels to at least 32 pixels each way (so
//! that Windows does not scale it) and then to a square.

use vstd::prelude::*;

verus! {

/// Smallest side of a cursor that Windows shows unscaled.
pub const MIN_CURSOR_SIZE: u32 = 32;

/// `n` zero bytes.
pub open spec fn zero_bytes(n: int) -> Seq<u8> {
    Seq::new(n as nat, |i: int| 0u8)
}

/// The BGRA pixels of the RGBA pixels `d`; a last incomplete pixel is
/// dropped.
pub open spec fn bgra_of(d: Seq<u8>) -> Seq<u8> {
    Seq::new(
        (4 * (d.len() / 4)) as nat,
        |i: int|
            if i % 4 == 0 {
                d[i + 2]
            } else if i % 4 == 2 {
                d[i - 2]
            } else {
                d[i]
            },
    )
}

/// The first `h` rows of `w` pixels of `b`, each followed by transparent
/// pixels up to `MIN_CURSOR_SIZE` pixels.
pub open spec fn pad_rows(b: Seq<u8>, w: int, h: int) -> Seq<u8>
    decreases h,
{
    if h <= 0 {
        Seq::empty()
    } else {
        pad_rows(b, w, h - 1) + b.subrange((h - 1) * w * 4, h * w * 4) + zero_bytes(
            (MIN_CURSOR_SIZE - w) * 4,
        )
    }
}

/// The width after the first padding.
pub open spec fn padded_width(w: int) -> int {
    if w < MIN_CURSOR_SIZE {
        MIN_CURSOR_SIZE as int
    } else {
        w
    }
}

/// The height after the second padding.
pub open spec fn padded_height(h: int) -> int {
    if h < MIN_CURSOR_SIZE {
        MIN_CURSOR_SIZE as int
    } else {
        h
    }
}

/// The cursor image of `d`, `w` x `h` pixels: none for a cursor under 4
/// pixels either way. The rows are padded to 32 pixels when narrower; the
/// padded image then gets transparent rows up to 32 when it is lower, but
/// when it is not, the unpadded pixels are taken again, under the padded
/// width; an image wider than high gets transparent rows to a square.
pub open spec fn spec_windows_cursor(d: Seq<u8>, w: int, h: int) -> Option<(Seq<u8>, int, int)> {
    if w < 4 || h < 4 {
        None
    } else {
        let b = bgra_of(d);
        let w1 = padded_width(w);
        let d1 = if w < MIN_CURSOR_SIZE {
            pad_rows(b, w, h)
        } else {
            b
        };
        let h2 = padded_height(h);
        let d2 = if h < MIN_CURSOR_SIZE {
            d1 + zero_bytes(w1 * (MIN_CURSOR_SIZE - h) * 4)
        } else {
            b
        };
        if w1 > h2 {
            Some((d2 + zero_bytes(w1 * (w1 - h2) * 4), w1, w1))
        } else {
            Some((d2, w1, h2))
        }
    }
}

/// The cursor can be prepared: its rows, when padded, lie in the pixels,
/// the sizes computed on 32 bits do not overflow, and it is not left
/// narrower than high.
pub open spec fn windows_cursor_ok(len: int, w: int, h: int) -> bool {
    w >= 4 && h >= 4 ==> {
        let w1 = padded_width(w);
        let h2 = padded_height(h);
        &&& w < MIN_CURSOR_SIZE ==> w * 4 * h <= 4 * (len / 4) && w * 4 * h <= u32::MAX
        &&& h < MIN_CURSOR_SIZE ==> w1 * (MIN_CURSOR_SIZE - h) * 4 <= u32::MAX
        &&& w1 >= h2
        &&& w1 > h2 ==> w1 * (w1 - h2) * 4 <= u32::MAX
    }
}

/// Appends `n` zero bytes.
fn push_zeros(v: &mut Vec<u8>, n: usize)
    ensures
        final(v)@ == old(v)@ + zero_bytes(n as int),
{
    let ghost start = v@;
    let mut i: usize = 0;
    while i < n
        invariant
            i <= n,
            v@ == start + zero_bytes(i as int),
        decreases n - i,
    {
        v.push(0);
        i = i + 1;
        assert(v@ =~= start + zero_bytes(i as int));
    }
}

/// The BGRA pixels of the RGBA pixels `d`.
fn to_bgra(d: &[u8]) -> (b: Vec<u8>)
    ensures
        b@ == bgra_of(d@),
{
    let len = d.len();
    let n = len / 4;
    let mut b: Vec<u8> = Vec::new();
    let mut k: usize = 0;
    while k < n
        invariant
            len == d@.len(),
            n == d@.len() / 4,
            k <= n,
            b@.len() == 4 * k,
            forall|i: int| 0 <= i < 4 * k ==> #[trigger] b@[i] == bgra_of(d@)[i],
        decreases n - k,
    {
        let r = d[4 * k];
        let g = d[4 * k + 1];
        let bl = d[4 * k + 2];
        let a = d[4 * k + 3];
        b.push(bl);
        b.push(g);
        b.push(r);
        b.push(a);
        proof {
            assert forall|i: int| 0 <= i < 4 * (k + 1) implies #[trigger] b@[i] == bgra_of(d@)[i] by {
                if i >= 4 * k {
                    assert(i % 4 == i - 4 * k);
                    assert(i - i % 4 == 4 * k);
                }
            }
        }
        k = k + 1;
    }
    assert(b@ =~= bgra_of(d@));
    b
}

proof fn lemma_mul_le(c: int, a: int, b: int)
    requires
        0 <= a <= b,
        0 <= c,
    ensures
        c * a <= c * b,
{
    assert(c * a <= c * b) by (nonlinear_arith)
        requires
            0 <= a <= b,
            0 <= c,
    ;
}

/// The first `h` rows of `w` pixels of `b`, each padded to 32 pixels.
fn pad_rows_exec(b: &Vec<u8>, w: u32, h: u32) -> (out: Vec<u8>)
    requires
        w < MIN_CURSOR_SIZE,
        w * 4 * h <= b@.len(),
        w * 4 * h <= u32::MAX,
    ensures
        out@ == pad_rows(b@, w as int, h as int),
{
    let row = w * 4;
    let mut out: Vec<u8> = Vec::new();
    let mut i: u32 = 0;
    while i < h
        invariant
            w < MIN_CURSOR_SIZE,
            row == w * 4,
            row * h <= b@.len(),
            row * h <= u32::MAX,
            i <= h,
            out@ == pad_rows(b@, w as int, i as int),
        decreases h - i,
    {
        proof {
            lemma_mul_le(row as int, i as int + 1, h as int);
            assert(row * i + row == row * (i + 1)) by (nonlinear_arith);
            assert((i as int) * w * 4 == row * i && (i as int + 1) * w * 4 == row * (i + 1)) by (
            nonlinear_arith)
                requires
                    row == w * 4,
            ;
        }
        let start = row * i;
        let end = row * (i + 1);
        let ghost before = out@;
        let mut j = start;
        while j < end
            invariant
                start <= j <= end,
                end as int <= b@.len(),
                out@ == before + b@.subrange(start as int, j as int),
            decreases end - j,
        {
            out.push(b[j as usize]);
            j = j + 1;
            assert(out@ =~= before + b@.subrange(start as int, j as int));
        }
        push_zeros(&mut out, ((MIN_CURSOR_SIZE - w) * 4) as usize);
        i = i + 1;
        assert(out@ =~= pad_rows(b@, w as int, i as int));
    }
    out
}

/// The cursor image of the RGBA pixels `d`, `w` x `h`, as the Windows
/// client hands it to the icon encoder: its BGRA pixels and size; none for
/// a cursor under 4 pixels either way.
pub fn windows_cursor(d: &[u8], w: u32, h: u32) -> (r: Option<(Vec<u8>, u32, u32)>)
    requires
        windows_cursor_ok(d@.len() as int, w as int, h as int),
    ensures
        match spec_windows_cursor(d@, w as int, h as int) {
            None => r is None,
            Some((data, w3, h3)) => r matches Some((v, rw, rh)) && v@ == data && rw == w3 && rh == h3,
        },
{
    if w < 4 || h < 4 {
        return None;
    }
    let b = to_bgra(d);
    let w1 = if w < MIN_CURSOR_SIZE {
        MIN_CURSOR_SIZE
    } else {
        w
    };
    let h2 = if h < MIN_CURSOR_SIZE {
        MIN_CURSOR_SIZE
    } else {
        h
    };
    let mut d2 = if h < MIN_CURSOR_SIZE {
        let mut d1 = if w < MIN_CURSOR_SIZE {
            pad_rows_exec(&b, w, h)
        } else {
            b
        };
        push_zeros(&mut d1, (w1 * (MIN_CURSOR_SIZE - h) * 4) as usize);
        d1
    } else {
        b
    };
    if w1 > h2 {
        push_zeros(&mut d2, (w1 * (w1 - h2) * 4) as usize);
        Some((d2, w1, w1))
    } else {
        Some((d2, w1, h2))
    }
}

} // verus!
