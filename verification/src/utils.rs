//! Limits on what the peer sends, XWD image headers, and the small enums
//! shared by client and server.

use crate::byte_order::{be_u32_at, le_bytes_u32, read_u32_be_at, write_u32_le_at};
use vstd::prelude::*;

verus! {

/// An event that the server reports to its main loop.
#[derive(Debug, Clone, Copy, PartialEq, Eq)]
pub enum ServerEvent {
    /// The client asked for a new resolution.
    ResolutionChange(u32, u32),
}

/// Which X11 selection a clipboard value belongs to.
#[derive(Debug, Clone, Copy)]
pub enum ClipboardSelection {
    Clipboard,
    Primary,
}

/// When the client sends its clipboard to the server.
#[derive(Debug, Clone, Copy)]
pub enum ClipboardConfig {
    /// On each change of the local clipboard.
    Allow,
    /// Never.
    Deny,
    /// On a special shortcut.
    Trig,
}

/// Largest XWD header accepted.
pub const MAX_HEADER_SIZE: u32 = 0x100;

/// Largest XWD colour map accepted.
pub const MAX_NCOLORS: u32 = 0x100;

/// Largest image width accepted.
pub const MAX_WINDOW_WIDTH: u32 = 8129;

/// Largest image height accepted.
pub const MAX_WINDOW_HEIGHT: u32 = 8129;

/// Largest image line accepted, in bytes.
pub const MAX_BYTES_PER_LINE: u32 = 32516;

/// Largest cursor width accepted.
pub const MAX_CURSOR_WIDTH: u32 = 1024;

/// Largest cursor height accepted.
pub const MAX_CURSOR_HEIGHT: u32 = 1024;

/// Offsets, in 32 bit words, of the fields of an XWD header.
pub const OFFSET_NCOLORS: usize = 19;
pub const OFFSET_BYTES_PER_LINE: usize = 12;
pub const OFFSET_WINDOW_WIDTH: usize = 20;
pub const OFFSET_WINDOW_HEIGHT: usize = 21;

/// A size refused because it is above its limit.
#[derive(Debug, Clone, Copy, PartialEq, Eq)]
pub enum SizeError {
    /// Image too big: its width and height.
    ImageTooBig(u32, u32),
    /// Cursor too big: its width, height and hot spot.
    CursorTooBig(u32, u32, u32, u32),
}

/// Accepts an image size no larger than `MAX_WINDOW_WIDTH` x `MAX_WINDOW_HEIGHT`.
pub fn check_img_size(width: u32, height: u32) -> (res: Result<(u32, u32), SizeError>)
    ensures
        width <= MAX_WINDOW_WIDTH && height <= MAX_WINDOW_HEIGHT ==> res == Ok::<
            (u32, u32),
            SizeError,
        >((width, height)),
        !(width <= MAX_WINDOW_WIDTH && height <= MAX_WINDOW_HEIGHT) ==> res == Err::<
            (u32, u32),
            SizeError,
        >(SizeError::ImageTooBig(width, height)),
{
    if width > MAX_WINDOW_WIDTH || height > MAX_WINDOW_HEIGHT {
        Err(SizeError::ImageTooBig(width, height))
    } else {
        Ok((width, height))
    }
}

/// Accepts a cursor whose size and hot spot are within
/// `MAX_CURSOR_WIDTH` x `MAX_CURSOR_HEIGHT`.
pub fn check_cusor_size(width: u32, height: u32, xhot: u32, yhot: u32) -> (res: Result<
    (u32, u32, u32, u32),
    SizeError,
>)
    ensures
        ({
            let ok = width <= MAX_CURSOR_WIDTH && height <= MAX_CURSOR_HEIGHT && xhot
                <= MAX_CURSOR_WIDTH && yhot <= MAX_CURSOR_HEIGHT;
            &&& ok ==> res == Ok::<(u32, u32, u32, u32), SizeError>((width, height, xhot, yhot))
            &&& !ok ==> res == Err::<(u32, u32, u32, u32), SizeError>(
                SizeError::CursorTooBig(width, height, xhot, yhot),
            )
        }),
{
    if width > MAX_CURSOR_WIDTH || height > MAX_CURSOR_HEIGHT || xhot > MAX_CURSOR_WIDTH || yhot
        > MAX_CURSOR_HEIGHT {
        Err(SizeError::CursorTooBig(width, height, xhot, yhot))
    } else {
        Ok((width, height, xhot, yhot))
    }
}

/// Why an XWD header is refused: the field, with its value.
#[derive(Debug, Clone, Copy, PartialEq, Eq)]
pub enum XwdError {
    HeaderSize(u32),
    NColors(u32),
    BytesPerLine(u32),
    WindowWidth(u32),
    WindowHeight(u32),
}

/// Header size of the XWD image `d`.
pub open spec fn xwd_header_size(d: Seq<u8>) -> u32 {
    be_u32_at(d, 0)
}

/// Colour map length of the XWD image `d`.
pub open spec fn xwd_ncolors(d: Seq<u8>) -> u32 {
    be_u32_at(d, 4 * OFFSET_NCOLORS)
}

/// Bytes per line of the XWD image `d`.
pub open spec fn xwd_bytes_per_line(d: Seq<u8>) -> u32 {
    be_u32_at(d, 4 * OFFSET_BYTES_PER_LINE)
}

/// Width of the XWD image `d`.
pub open spec fn xwd_width(d: Seq<u8>) -> u32 {
    be_u32_at(d, 4 * OFFSET_WINDOW_WIDTH)
}

/// Height of the XWD image `d`.
pub open spec fn xwd_height(d: Seq<u8>) -> u32 {
    be_u32_at(d, 4 * OFFSET_WINDOW_HEIGHT)
}

/// Every field of the header of `d` is within its limit.
pub open spec fn xwd_header_ok(d: Seq<u8>) -> bool {
    &&& xwd_header_size(d) <= MAX_HEADER_SIZE
    &&& xwd_ncolors(d) <= MAX_NCOLORS
    &&& xwd_bytes_per_line(d) <= MAX_BYTES_PER_LINE
    &&& xwd_width(d) <= MAX_WINDOW_WIDTH
    &&& xwd_height(d) <= MAX_WINDOW_HEIGHT
}

/// Offset of the pixels of the XWD image `d`: after the header and the
/// colour map (12 bytes per colour).
pub open spec fn xwd_pixels_offset(d: Seq<u8>) -> int {
    xwd_header_size(d) + xwd_ncolors(d) * 12
}

/// Length of the pixels of the XWD image `d`.
pub open spec fn xwd_pixels_len(d: Seq<u8>) -> int {
    xwd_bytes_per_line(d) * xwd_height(d)
}

/// Finds the pixels of an XWD image (all fields big endian) and gives them
/// back with the width, the height and the bytes per line. Each field is
/// checked, in the order header size, colour map length, bytes per line,
/// width, height, and the first one above its limit is the error.
pub fn get_xwd_data(data: &[u8]) -> (res: Result<(&[u8], u32, u32, u32), XwdError>)
    requires
        data@.len() >= 0x100,
        xwd_header_ok(data@) ==> xwd_pixels_offset(data@) + xwd_pixels_len(data@) <= data@.len(),
    ensures
        xwd_header_size(data@) > MAX_HEADER_SIZE ==> res == Err::<(&[u8], u32, u32, u32), XwdError>(
            XwdError::HeaderSize(xwd_header_size(data@)),
        ),
        xwd_header_size(data@) <= MAX_HEADER_SIZE && xwd_ncolors(data@) > MAX_NCOLORS ==> res
            == Err::<(&[u8], u32, u32, u32), XwdError>(XwdError::NColors(xwd_ncolors(data@))),
        xwd_header_size(data@) <= MAX_HEADER_SIZE && xwd_ncolors(data@) <= MAX_NCOLORS
            && xwd_bytes_per_line(data@) > MAX_BYTES_PER_LINE ==> res == Err::<
            (&[u8], u32, u32, u32),
            XwdError,
        >(XwdError::BytesPerLine(xwd_bytes_per_line(data@))),
        xwd_header_size(data@) <= MAX_HEADER_SIZE && xwd_ncolors(data@) <= MAX_NCOLORS
            && xwd_bytes_per_line(data@) <= MAX_BYTES_PER_LINE && xwd_width(data@)
            > MAX_WINDOW_WIDTH ==> res == Err::<(&[u8], u32, u32, u32), XwdError>(
            XwdError::WindowWidth(xwd_width(data@)),
        ),
        xwd_header_size(data@) <= MAX_HEADER_SIZE && xwd_ncolors(data@) <= MAX_NCOLORS
            && xwd_bytes_per_line(data@) <= MAX_BYTES_PER_LINE && xwd_width(data@)
            <= MAX_WINDOW_WIDTH && xwd_height(data@) > MAX_WINDOW_HEIGHT ==> res == Err::<
            (&[u8], u32, u32, u32),
            XwdError,
        >(XwdError::WindowHeight(xwd_height(data@))),
        xwd_header_ok(data@) ==> (res matches Ok((pixels, width, height, bytes_per_line)) && {
            &&& pixels@ == data@.subrange(
                xwd_pixels_offset(data@),
                xwd_pixels_offset(data@) + xwd_pixels_len(data@),
            )
            &&& width == xwd_width(data@)
            &&& height == xwd_height(data@)
            &&& bytes_per_line == xwd_bytes_per_line(data@)
        }),
{
    let header_size = read_u32_be_at(data, 0);
    if header_size > MAX_HEADER_SIZE {
        return Err(XwdError::HeaderSize(header_size));
    }
    let ncolors = read_u32_be_at(data, OFFSET_NCOLORS * 4);
    if ncolors > MAX_NCOLORS {
        return Err(XwdError::NColors(ncolors));
    }
    let bytes_per_line = read_u32_be_at(data, OFFSET_BYTES_PER_LINE * 4);
    if bytes_per_line > MAX_BYTES_PER_LINE {
        return Err(XwdError::BytesPerLine(bytes_per_line));
    }
    let window_x = read_u32_be_at(data, OFFSET_WINDOW_WIDTH * 4);
    if window_x > MAX_WINDOW_WIDTH {
        return Err(XwdError::WindowWidth(window_x));
    }
    let window_y = read_u32_be_at(data, OFFSET_WINDOW_HEIGHT * 4);
    if window_y > MAX_WINDOW_HEIGHT {
        return Err(XwdError::WindowHeight(window_y));
    }
    let offset = header_size + ncolors * 0xc;
    assert(bytes_per_line * window_y <= 32516 * 8129) by (nonlinear_arith)
        requires
            bytes_per_line <= 32516,
            window_y <= 8129,
    ;
    let size = bytes_per_line * window_y;
    let pixels = vstd::slice::slice_subrange(data, offset as usize, (offset + size) as usize);
    Ok((pixels, window_x, window_y, bytes_per_line))
}

/// How much the programs log.
#[derive(Debug, Clone, Copy, PartialEq, Eq)]
pub enum LogVerbosity {
    /// What the environment asks for.
    Default,
    Warn,
    Info,
    Debug,
    Trace,
}

/// The verbosity of the `-v` count `level`: none keeps the environment's
/// choice, then warnings, information, debugging, and traces from four on.
pub fn log_verbosity(level: u8) -> (v: LogVerbosity)
    ensures
        level == 0 ==> v == LogVerbosity::Default,
        level == 1 ==> v == LogVerbosity::Warn,
        level == 2 ==> v == LogVerbosity::Info,
        level == 3 ==> v == LogVerbosity::Debug,
        level >= 4 ==> v == LogVerbosity::Trace,
{
    match level {
        0 => LogVerbosity::Default,
        1 => LogVerbosity::Warn,
        2 => LogVerbosity::Info,
        3 => LogVerbosity::Debug,
        _ => LogVerbosity::Trace,
    }
}

/// The bytes of the pixels `pixels`, four per pixel, least significant
/// first.
pub open spec fn le_pixels(pixels: Seq<u32>) -> Seq<u8>
    decreases pixels.len(),
{
    if pixels.len() == 0 {
        Seq::empty()
    } else {
        le_pixels(pixels.drop_last()) + le_bytes_u32(pixels.last())
    }
}

/// The cursor image as sent to the client: each ARGB pixel of the X server
/// on four bytes, least significant first.
pub fn cursor_bytes(pixels: &[u32]) -> (bytes: Vec<u8>)
    requires
        4 * pixels@.len() <= usize::MAX,
    ensures
        bytes@ == le_pixels(pixels@),
{
    let mut bytes = vec![0u8; 4 * pixels.len()];
    let mut i: usize = 0;
    while i < pixels.len()
        invariant
            i <= pixels@.len(),
            4 * pixels@.len() <= usize::MAX,
            bytes@.len() == 4 * pixels@.len(),
            bytes@.subrange(0, 4 * i as int) == le_pixels(pixels@.subrange(0, i as int)),
        decreases pixels@.len() - i,
    {
        let ghost before = bytes@;
        write_u32_le_at(&mut bytes, 4 * i, pixels[i]);
        proof {
            let pre = pixels@.subrange(0, i as int + 1);
            assert(pre.drop_last() =~= pixels@.subrange(0, i as int));
            assert(pre.last() == pixels@[i as int]);
            assert(bytes@.subrange(0, 4 * i as int) =~= before.subrange(0, 4 * i as int));
            assert(bytes@.subrange(0, 4 * (i + 1) as int) =~= bytes@.subrange(0, 4 * i as int)
                + le_bytes_u32(pixels@[i as int]));
        }
        i = i + 1;
    }
    assert(pixels@.subrange(0, pixels@.len() as int) =~= pixels@);
    assert(bytes@.subrange(0, bytes@.len() as int) =~= bytes@);
    bytes
}

} // verus!
