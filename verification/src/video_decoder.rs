//! Video decoders: the pass-through decoder that copies raw frames, and the
//! conversion of a decoded frame to the RGBA image that the client shows.

use crate::keyed::KeyedList;
use crate::timing::{elapsed, now};
use crate::video_encoder::{opt_options, text_values};
use crate::yuv::{
    apply_rows, fits_halves, fits_pairs, nv12_rgba_std, spec_yuv_to_rgb_param, yuv420_rgba_step,
    yuv420_to_rgba_std, yuv444_rgba_step, yuv444_to_rgba_std, YuvType,
};
use crate::yuv::{clamp_byte, lemma_yuv444_to_rgba_pixels, rgb_of, yuv444_pixel_rgb};
use crate::yuv_laws::{lemma_jpeg_rgb_of, lemma_yuv420_rgba_pixels, yuv420_pixel_channel};
use std::time::Duration;
use vstd::prelude::*;

verus! {

/// Durations of the steps of a decoding, by name.
pub struct DecoderTimings {
    pub times: Vec<(&'static str, Duration)>,
}

/// A video decoder.
pub trait Decoder {
    /// The decoder takes raw frames.
    fn is_raw(&self) -> bool;

    /// The decoder uses SSSE3 instructions.
    fn has_ssse3(&self) -> bool;

    /// Name of the codec.
    fn name(&self) -> String;

    /// The options the codec was opened with, by name.
    fn options(&self) -> KeyedList<String>;

    /// The last decoded image, in RGBA.
    fn data_rgba(&mut self) -> &mut Option<Vec<u8>>;

    /// `decode_img` may be called with these arguments.
    spec fn decode_img_requires(
        &self,
        data_in: Seq<u8>,
        img_out_width: u16,
        img_out_height: u16,
        img_bytes_per_line: Option<u16>,
    ) -> bool;

    /// Decodes `data_in` into an image of `img_out_width` x `img_out_height`.
    fn decode_img(
        &mut self,
        data_in: &[u8],
        img_out_width: u16,
        img_out_height: u16,
        img_bytes_per_line: Option<u16>,
    ) -> (Option<()>, Option<DecoderTimings>)
        requires
            old(self).decode_img_requires(data_in@, img_out_width, img_out_height, img_bytes_per_line),
    ;
}

/// A decoder of raw frames: copies each line of the frame into the image.
#[derive(Debug)]
pub struct DecoderNull {
    /// The image, allocated at the first frame.
    pub data_rgba: Option<Vec<u8>>,
    /// An RGB buffer, allocated at the first frame.
    pub data_rgb: Option<Vec<u8>>,
}

/// The content of an image buffer before a frame is written in it: the
/// buffer as it was, or `len` zero bytes when there was none yet.
pub open spec fn initial_buffer(buf: Option<Vec<u8>>, len: int) -> Seq<u8> {
    match buf {
        Some(v) => v@,
        None => Seq::new(len as nat, |i: int| 0u8),
    }
}

proof fn lemma_row_in_image(row: int, width4: int, height: int)
    requires
        0 <= row < height,
        0 <= width4,
    ensures
        row * width4 + width4 <= height * width4,
{
    assert(row * width4 + width4 <= height * width4) by (nonlinear_arith)
        requires
            row + 1 <= height,
            width4 >= 0,
    ;
}

impl DecoderNull {
    /// A decoder with no image yet.
    pub fn new() -> (d: Self)
        ensures
            d.data_rgba is None,
            d.data_rgb is None,
    {
        DecoderNull { data_rgba: None, data_rgb: None }
    }

    /// Copies the `img_out_height` lines of `data_in` (each `img_bytes_per_line`
    /// bytes apart) into the image, `4 * img_out_width` bytes per line. Without
    /// a line length, nothing is done and nothing is reported.
    pub fn copy_frame(
        &mut self,
        data_in: &[u8],
        img_out_width: u16,
        img_out_height: u16,
        img_bytes_per_line: Option<u16>,
    ) -> (res: (Option<()>, Option<DecoderTimings>))
        requires
            4 * img_out_width * img_out_height <= usize::MAX,
            img_bytes_per_line is Some && img_out_height > 0 ==> (img_out_height - 1)
                * img_bytes_per_line.unwrap() + 4 * img_out_width <= data_in@.len(),
            old(self).data_rgba matches Some(v) ==> 4 * img_out_width * img_out_height <= v@.len(),
        ensures
            img_bytes_per_line is None ==> res.0 is None && res.1 is None && *final(self) == *old(
                self,
            ),
            img_bytes_per_line is Some ==> {
                let w4 = 4 * img_out_width;
                let bpl = img_bytes_per_line.unwrap();
                let init = initial_buffer(old(self).data_rgba, w4 * img_out_height);
                &&& res.0 is Some
                &&& res.1 matches Some(t) && t.times@.len() == 1 && t.times@[0].0@ == "copy"@
                &&& final(self).data_rgba matches Some(v) && {
                    &&& v@.len() == init.len()
                    &&& forall|row: int, c: int|
                        0 <= row < img_out_height && 0 <= c < w4 ==> #[trigger] v@[row * w4 + c]
                            == data_in@[row * bpl + c]
                    &&& forall|k: int|
                        w4 * img_out_height <= k < init.len() ==> #[trigger] v@[k] == init[k]
                }
                &&& old(self).data_rgb is Some ==> final(self).data_rgb == old(self).data_rgb
                &&& old(self).data_rgb is None ==> (final(self).data_rgb matches Some(v) && v@.len()
                    == 3 * img_out_width * img_out_height)
            },
    {
        let img_bytes_per_line = match img_bytes_per_line {
            Some(b) => b,
            None => {
                return (None, None);
            },
        };
        let w4 = 4 * img_out_width as usize;
        let h = img_out_height as usize;
        let bpl = img_bytes_per_line as usize;
        let ghost old_rgba = self.data_rgba;
        let mut rgba = match self.data_rgba.take() {
            Some(v) => v,
            None => {
                let v = vec![0u8; w4 * h];
                assert(v@ =~= Seq::new((w4 * h) as nat, |i: int| 0u8));
                v
            },
        };
        assert(rgba@ == initial_buffer(old_rgba, w4 * h));
        if self.data_rgb.is_none() {
            assert(3 * img_out_width * img_out_height <= usize::MAX) by (nonlinear_arith)
                requires
                    4 * img_out_width * img_out_height <= usize::MAX,
            ;
            self.data_rgb = Some(vec![0u8; 3 * img_out_width as usize * h]);
        }
        let ghost init = rgba@;
        assert(init.len() >= w4 * h);
        let time_start = now();
        let mut row: usize = 0;
        while row < h
            invariant
                row <= h,
                w4 == 4 * img_out_width,
                h == img_out_height,
                bpl == img_bytes_per_line,
                4 * img_out_width * img_out_height <= usize::MAX,
                h > 0 ==> (h - 1) * bpl + w4 <= data_in.len(),
                rgba@.len() == init.len(),
                rgba.len() == init.len(),
                init.len() >= w4 * h,
                forall|r: int, c: int|
                    0 <= r < row && 0 <= c < w4 ==> #[trigger] rgba@[r * w4 + c] == data_in@[r
                        * bpl + c],
                forall|k: int| row * w4 <= k < init.len() ==> #[trigger] rgba@[k] == init[k],
            decreases h - row,
        {
            proof {
                vstd::arithmetic::mul::lemma_mul_inequality(row as int, h - 1, bpl as int);
                lemma_row_in_image(row as int, w4 as int, h as int);
                assert(w4 * h == h * w4) by (nonlinear_arith);
            }
            let offset_src = row * bpl;
            let offset_dst = row * w4;
            let ghost before = rgba@;
            let mut c: usize = 0;
            while c < w4
                invariant
                    c <= w4,
                    row < h,
                    offset_src == row * bpl,
                    offset_dst == row * w4,
                    offset_src + w4 <= data_in.len(),
                    offset_dst + w4 <= rgba.len(),
                    rgba@.len() == before.len(),
                    forall|k: int|
                        0 <= k < rgba@.len() && !(offset_dst <= k < offset_dst + c) ==> rgba@[k]
                            == before[k],
                    forall|k: int|
                        offset_dst <= k < offset_dst + c ==> #[trigger] rgba@[k] == data_in@[k
                            - offset_dst + offset_src],
                decreases w4 - c,
            {
                rgba.set(offset_dst + c, data_in[offset_src + c]);
                c = c + 1;
            }
            proof {
                assert forall|r: int, cc: int| 0 <= r < row + 1 && 0 <= cc < w4 implies #[trigger] rgba@[r * w4 + cc] == data_in@[r * bpl + cc] by {
                    if r < row {
                        assert(r * w4 + cc < row * w4) by (nonlinear_arith)
                            requires
                                r + 1 <= row,
                                0 <= cc < w4,
                        ;
                        assert(0 <= r * w4 + cc) by (nonlinear_arith)
                            requires
                                0 <= r,
                                0 <= cc,
                                0 <= w4,
                        ;
                        assert(before[r * w4 + cc] == data_in@[r * bpl + cc]);
                        assert(rgba@[r * w4 + cc] == before[r * w4 + cc]);
                    } else {
                        assert(rgba@[offset_dst + cc] == data_in@[offset_dst + cc - offset_dst + offset_src]);
                    }
                }
                assert(row * w4 + w4 == (row + 1) * w4) by (nonlinear_arith);
                assert forall|k: int| (row + 1) * w4 <= k < init.len() implies #[trigger] rgba@[k] == init[k] by {
                    assert(before[k] == init[k]);
                }
            }
            row = row + 1;
        }
        let time_end = now();
        assert(h * w4 == w4 * h) by (nonlinear_arith);
        self.data_rgba = Some(rgba);
        let mut times = Vec::new();
        times.push(("copy", elapsed(time_start, time_end)));
        (Some(()), Some(DecoderTimings { times }))
    }
}

impl Decoder for DecoderNull {
    fn is_raw(&self) -> (r: bool)
        ensures
            !r,
    {
        false
    }

    fn has_ssse3(&self) -> (r: bool)
        ensures
            !r,
    {
        false
    }

    fn name(&self) -> (r: String)
        ensures
            r@ == seq!['n', 'u', 'l', 'l'],
    {
        let r = "null".to_owned();
        proof {
            reveal_strlit("null");
        }
        r
    }

    fn options(&self) -> (r: KeyedList<String>)
        ensures
            r@ == Map::<Seq<char>, String>::empty(),
    {
        KeyedList::new()
    }

    fn data_rgba(&mut self) -> (r: &mut Option<Vec<u8>>)
        ensures
            *r == old(self).data_rgba,
            final(self).data_rgba == *final(r),
            final(self).data_rgb == old(self).data_rgb,
    {
        &mut self.data_rgba
    }

    open spec fn decode_img_requires(
        &self,
        data_in: Seq<u8>,
        img_out_width: u16,
        img_out_height: u16,
        img_bytes_per_line: Option<u16>,
    ) -> bool {
        &&& 4 * img_out_width * img_out_height <= usize::MAX
        &&& img_bytes_per_line is Some && img_out_height > 0 ==> (img_out_height - 1)
            * img_bytes_per_line.unwrap() + 4 * img_out_width <= data_in.len()
        &&& self.data_rgba matches Some(v) ==> 4 * img_out_width * img_out_height <= v@.len()
    }

    fn decode_img(
        &mut self,
        data_in: &[u8],
        img_out_width: u16,
        img_out_height: u16,
        img_bytes_per_line: Option<u16>,
    ) -> (res: (Option<()>, Option<DecoderTimings>))
        ensures
            img_bytes_per_line is None ==> res.0 is None && res.1 is None && *final(self) == *old(
                self,
            ),
            img_bytes_per_line is Some ==> {
                let w4 = 4 * img_out_width;
                let bpl = img_bytes_per_line.unwrap();
                let init = initial_buffer(old(self).data_rgba, w4 * img_out_height);
                &&& res.0 is Some
                &&& res.1 matches Some(t) && t.times@.len() == 1 && t.times@[0].0@ == "copy"@
                &&& final(self).data_rgba matches Some(v) && {
                    &&& v@.len() == init.len()
                    &&& forall|row: int, c: int|
                        0 <= row < img_out_height && 0 <= c < w4 ==> #[trigger] v@[row * w4 + c]
                            == data_in@[row * bpl + c]
                    &&& forall|k: int|
                        w4 * img_out_height <= k < init.len() ==> #[trigger] v@[k] == init[k]
                }
                &&& old(self).data_rgb is Some ==> final(self).data_rgb == old(self).data_rgb
                &&& old(self).data_rgb is None ==> (final(self).data_rgb matches Some(v) && v@.len()
                    == 3 * img_out_width * img_out_height)
            },
    {
        self.copy_frame(data_in, img_out_width, img_out_height, img_bytes_per_line)
    }
}


/// Layouts of the decoded frames that the client converts.
#[derive(Debug, Clone, Copy, PartialEq, Eq)]
pub enum FramePixelFormat {
    /// Y, U and V planes, chroma on 2x2 blocks.
    Yuv420p,
    /// Y, U and V planes, chroma on each pixel.
    Yuv444p,
    /// A Y plane and an interleaved UV plane, chroma on 2x2 blocks.
    Nv12,
}

/// The RGBA image that `decoded_frame_to_rgba` fills, before the frame is
/// written into it: the image already there, or a new one of
/// `4 * lane * frame_height` zero bytes.
pub open spec fn frame_buffer(data_rgba: Option<Vec<u8>>, lane: usize, frame_height: usize) -> Seq<u8> {
    initial_buffer(data_rgba, 4 * lane * frame_height)
}

/// The arguments of `decoded_frame_to_rgba` that a frame must meet: the
/// frame is at least as large as the image, and each plane is long enough
/// for the lines that the conversion reads.
pub open spec fn frame_fits(
    format: FramePixelFormat,
    lanes: (usize, usize, usize),
    frame_height: usize,
    plane_y: Seq<u8>,
    plane_u: Seq<u8>,
    plane_v: Seq<u8>,
    img_out_width: u16,
    img_out_height: u16,
    rgba_len: int,
) -> bool {
    let w = img_out_width as int;
    let h = img_out_height as int;
    &&& lanes.0 >= w
    &&& frame_height >= h
    &&& match format {
        FramePixelFormat::Yuv420p => {
            &&& w >= 1
            &&& h >= 1
            &&& fits_pairs(plane_y.len() as int, w, h, lanes.0 as int, 2, 1)
            &&& fits_halves(plane_u.len() as int, w, h, lanes.1 as int, 1, 0)
            &&& fits_halves(plane_v.len() as int, w, h, lanes.2 as int, 1, 0)
            &&& fits_pairs(rgba_len, w, h, 4 * w, 8, 6)
        },
        FramePixelFormat::Nv12 => {
            &&& w >= 1
            &&& h >= 1
            &&& fits_pairs(plane_y.len() as int, w, h, lanes.0 as int, 2, 1)
            &&& fits_halves(plane_u.len() as int, w, h, lanes.1 as int, 2, 1)
            &&& fits_pairs(rgba_len, w, h, 4 * w, 8, 6)
        },
        FramePixelFormat::Yuv444p => w > 0 && h > 0 ==> {
            &&& (h - 1) * lanes.0 + w - 1 < plane_y.len()
            &&& (h - 1) * lanes.1 + w - 1 < plane_u.len()
            &&& (h - 1) * lanes.2 + w - 1 < plane_v.len()
            &&& (h - 1) * (4 * w) + 4 * (w - 1) + 2 < rgba_len
        },
    }
}

/// The RGBA image that a frame gives, written over `init`.
pub open spec fn frame_image(
    format: FramePixelFormat,
    lanes: (usize, usize, usize),
    plane_y: Seq<u8>,
    plane_u: Seq<u8>,
    plane_v: Seq<u8>,
    img_out_width: u16,
    img_out_height: u16,
    init: Seq<u8>,
) -> Seq<u8> {
    let p = spec_yuv_to_rgb_param(YuvType::ItuT871);
    let w = img_out_width as int;
    let h = img_out_height as int;
    match format {
        FramePixelFormat::Yuv420p => apply_rows(
            init,
            (h / 2) as nat,
            (w / 2) as nat,
            yuv420_rgba_step(p, plane_y, plane_u, plane_v, lanes.0 as int, lanes.1 as int, lanes.2 as int, 1, 0, 4 * w),
        ),
        FramePixelFormat::Nv12 => apply_rows(
            init,
            (h / 2) as nat,
            (w / 2) as nat,
            yuv420_rgba_step(p, plane_y, plane_u, plane_u, lanes.0 as int, lanes.1 as int, lanes.1 as int, 2, 1, 4 * w),
        ),
        FramePixelFormat::Yuv444p => apply_rows(
            init,
            h as nat,
            w as nat,
            yuv444_rgba_step(p, plane_y, plane_u, plane_v, lanes.0 as int, lanes.1 as int, lanes.2 as int, 4 * w),
        ),
    }
}

/// Converts a decoded frame (with the JPEG coefficients) into the RGBA image
/// of `img_out_width` x `img_out_height` pixels, four bytes per pixel, lines
/// one after the other. The frame may be larger than the image (a codec
/// rounds its sizes up): its extra lines and columns are left out. The
/// image is allocated at the first frame, with the size of that frame, and
/// so is an RGB buffer. For NV12, `plane_u` is the interleaved UV plane and
/// `plane_v` is not read.
#[allow(clippy::too_many_arguments)]
pub fn decoded_frame_to_rgba(
    format: FramePixelFormat,
    lanes: (usize, usize, usize),
    frame_height: usize,
    plane_y: &[u8],
    plane_u: &[u8],
    plane_v: &[u8],
    img_out_width: u16,
    img_out_height: u16,
    data_rgba: &mut Option<Vec<u8>>,
    data_rgb: &mut Option<Vec<u8>>,
)
    requires
        4 * lanes.0 * frame_height <= usize::MAX,
        frame_fits(
            format,
            lanes,
            frame_height,
            plane_y@,
            plane_u@,
            plane_v@,
            img_out_width,
            img_out_height,
            frame_buffer(*old(data_rgba), lanes.0, frame_height).len() as int,
        ),
    ensures
        *final(data_rgba) matches Some(v) && v@ == frame_image(
            format,
            lanes,
            plane_y@,
            plane_u@,
            plane_v@,
            img_out_width,
            img_out_height,
            frame_buffer(*old(data_rgba), lanes.0, frame_height),
        ),
        *old(data_rgb) is Some ==> *final(data_rgb) == *old(data_rgb),
        *old(data_rgb) is None ==> (*final(data_rgb) matches Some(v) && v@.len() == 3 * lanes.0
            * frame_height),
{
    assert(lanes.0 * frame_height <= 4 * lanes.0 * frame_height) by (nonlinear_arith);
    assert(3 * (lanes.0 * frame_height) <= 4 * lanes.0 * frame_height) by (nonlinear_arith);
    assert(3 * (lanes.0 * frame_height) == 3 * lanes.0 * frame_height) by (nonlinear_arith);
    assert(4 * (lanes.0 * frame_height) == 4 * lanes.0 * frame_height) by (nonlinear_arith);
    let size = lanes.0 * frame_height;
    let mut rgba = match data_rgba.take() {
        Some(v) => v,
        None => {
            let v = vec![0u8; 4 * size];
            assert(v@ =~= Seq::new((4 * size) as nat, |i: int| 0u8));
            v
        },
    };
    if data_rgb.is_none() {
        *data_rgb = Some(vec![0u8; 3 * size]);
    }
    let width = img_out_width as usize;
    let height = img_out_height as usize;
    match format {
        FramePixelFormat::Yuv420p => {
            yuv420_to_rgba_std(
                width,
                height,
                plane_y,
                plane_u,
                plane_v,
                lanes.0,
                lanes.1,
                lanes.2,
                rgba.as_mut_slice(),
                4 * width,
                YuvType::ItuT871,
            );
        },
        FramePixelFormat::Yuv444p => {
            yuv444_to_rgba_std(
                width,
                height,
                plane_y,
                plane_u,
                plane_v,
                lanes.0,
                lanes.1,
                lanes.2,
                rgba.as_mut_slice(),
                4 * width,
                YuvType::ItuT871,
            );
        },
        FramePixelFormat::Nv12 => {
            nv12_rgba_std(
                width,
                height,
                plane_y,
                plane_u,
                lanes.0,
                lanes.1,
                rgba.as_mut_slice(),
                4 * width,
                YuvType::ItuT871,
            );
        },
    }
    *data_rgba = Some(rgba);
}

/// The layout of the pixel format number `code` of a decoded frame:
/// 0 is YUV 4:2:0 planar, 5 is YUV 4:4:4 planar, 23 is NV12.
pub open spec fn spec_frame_pixel_format(code: i32) -> Option<FramePixelFormat> {
    if code == 0 {
        Some(FramePixelFormat::Yuv420p)
    } else if code == 5 {
        Some(FramePixelFormat::Yuv444p)
    } else if code == 23 {
        Some(FramePixelFormat::Nv12)
    } else {
        None
    }
}

/// The layout of a decoded frame, from the pixel format number the codec
/// gives it; `None` for a layout that is not supported.
pub fn frame_pixel_format(code: i32) -> (f: Option<FramePixelFormat>)
    ensures
        f == spec_frame_pixel_format(code),
{
    if code == 0 {
        Some(FramePixelFormat::Yuv420p)
    } else if code == 5 {
        Some(FramePixelFormat::Yuv444p)
    } else if code == 23 {
        Some(FramePixelFormat::Nv12)
    } else {
        None
    }
}

/// What an FFmpeg decoder is built from.
pub struct DecoderSettings {
    /// Name of the codec.
    pub name: Seq<char>,
    /// Options, by name, kept to build the decoder again.
    pub options: Map<Seq<char>, Seq<char>>,
}

/// Holds what is needed to build an FFmpeg decoder.
#[derive(Debug)]
pub struct DecoderBuilder {
    name: String,
    options: KeyedList<String>,
}

impl View for DecoderBuilder {
    type V = DecoderSettings;

    closed spec fn view(&self) -> DecoderSettings {
        DecoderSettings { name: self.name@, options: text_values(self.options@) }
    }
}

impl DecoderBuilder {
    /// A builder of the codec `name`, with no option.
    pub fn new(name: &str) -> (b: Self)
        ensures
            b@ == (DecoderSettings { name: name@, options: Map::empty() }),
    {
        let b = DecoderBuilder { name: name.to_owned(), options: KeyedList::new() };
        assert(text_values(b.options@) =~= Map::empty());
        b
    }

    /// Sets the codec option `name` to `val`, and keeps it.
    pub fn set_option(&mut self, name: &str, val: &str)
        ensures
            final(self)@ == (DecoderSettings {
                name: old(self)@.name,
                options: old(self)@.options.insert(name@, val@),
            }),
    {
        let k = name.to_owned();
        let v = val.to_owned();
        proof {
            assert(text_values(self.options@.insert(k@, v)) =~= text_values(self.options@).insert(
                k@,
                v@,
            ));
        }
        self.options.insert(k, v);
    }

    /// Sets each option of `opts`, in place of any value it had.
    pub fn set_options(&mut self, opts: &KeyedList<String>)
        ensures
            final(self)@ == (DecoderSettings {
                name: old(self)@.name,
                options: old(self)@.options.union_prefer_right(text_values(opts@)),
            }),
    {
        proof {
            assert(text_values(self.options@.union_prefer_right(opts@)) =~= text_values(
                self.options@,
            ).union_prefer_right(text_values(opts@)));
        }
        self.options.set_all(opts);
    }

    /// Name of the codec.
    pub fn name(&self) -> (s: String)
        ensures
            s@ == self@.name,
    {
        self.name.clone()
    }

    /// The options kept.
    pub fn options(&self) -> (o: &KeyedList<String>)
        ensures
            text_values(o@) == self@.options,
    {
        &self.options
    }
}

/// A decoder chosen by name: the pass-through one, or an FFmpeg decoder
/// still to be opened.
pub enum DecoderChoice {
    Null(DecoderNull),
    FFmpeg(DecoderBuilder),
}

/// Chooses the decoder `name`: `null` is the pass-through decoder, with no
/// image yet; any other name is an FFmpeg codec with the options
/// `codec_options`.
pub fn init_video_codec(codec_options: Option<&KeyedList<String>>, name: &str) -> (r: DecoderChoice)
    ensures
        name@ == "null"@ ==> (r matches DecoderChoice::Null(d) && d.data_rgba is None
            && d.data_rgb is None),
        name@ != "null"@ ==> (r matches DecoderChoice::FFmpeg(b) && b@ == (DecoderSettings {
            name: name@,
            options: opt_options(codec_options),
        })),
{
    let n = name.to_owned();
    if n == "null".to_owned() {
        return DecoderChoice::Null(DecoderNull::new());
    }
    let mut decoder = DecoderBuilder::new(name);
    if let Some(opts) = codec_options {
        decoder.set_options(opts);
    }
    assert(decoder@.options =~= opt_options(codec_options));
    DecoderChoice::FFmpeg(decoder)
}

impl DecoderNull {
    /// A new pass-through decoder, with no image yet.
    pub fn reload(&self) -> (d: DecoderNull)
        ensures
            d.data_rgba is None,
            d.data_rgb is None,
    {
        DecoderNull::new()
    }
}

/// The state of an opened FFmpeg decoder that the library handles: what it
/// is built again from, and the images that its frames are converted into.
/// The codec itself is held by the caller.
pub struct DecoderFFmpeg {
    /// What the decoder was built from.
    pub settings: DecoderBuilder,
    /// The RGBA image, allocated at the first frame.
    pub data_rgba: Option<Vec<u8>>,
    /// An RGB buffer, allocated at the first frame.
    pub data_rgb: Option<Vec<u8>>,
}

impl DecoderFFmpeg {
    /// The decoder opened from `settings`, with no image yet.
    pub fn new(settings: DecoderBuilder) -> (d: Self)
        ensures
            d.settings@ == settings@,
            d.data_rgba is None,
            d.data_rgb is None,
    {
        DecoderFFmpeg { settings, data_rgba: None, data_rgb: None }
    }

    /// A builder of the same decoder: the same codec and options.
    pub fn reload(&self) -> (b: DecoderBuilder)
        ensures
            b@ == self.settings@,
    {
        let name = self.settings.name();
        let mut b = DecoderBuilder::new(name.as_str());
        b.set_options(self.settings.options());
        assert(Map::<Seq<char>, Seq<char>>::empty().union_prefer_right(self.settings@.options)
            =~= self.settings@.options);
        b
    }

    /// Converts a frame received from the codec into the RGBA image of
    /// `img_out_width` x `img_out_height`; `code` is the pixel format number
    /// of the frame. A format that is not supported is refused and nothing
    /// changes.
    #[allow(clippy::too_many_arguments)]
    pub fn receive_frame(
        &mut self,
        code: i32,
        lanes: (usize, usize, usize),
        frame_height: usize,
        plane_y: &[u8],
        plane_u: &[u8],
        plane_v: &[u8],
        img_out_width: u16,
        img_out_height: u16,
    ) -> (res: Option<FramePixelFormat>)
        requires
            4 * lanes.0 * frame_height <= usize::MAX,
            spec_frame_pixel_format(code) matches Some(f) ==> frame_fits(
                f,
                lanes,
                frame_height,
                plane_y@,
                plane_u@,
                plane_v@,
                img_out_width,
                img_out_height,
                frame_buffer(old(self).data_rgba, lanes.0, frame_height).len() as int,
            ),
        ensures
            res == spec_frame_pixel_format(code),
            final(self).settings == old(self).settings,
            res is None ==> final(self).data_rgba == old(self).data_rgba && final(self).data_rgb
                == old(self).data_rgb,
            res matches Some(f) ==> {
                &&& final(self).data_rgba matches Some(v) && v@ == frame_image(
                    f,
                    lanes,
                    plane_y@,
                    plane_u@,
                    plane_v@,
                    img_out_width,
                    img_out_height,
                    frame_buffer(old(self).data_rgba, lanes.0, frame_height),
                )
                &&& old(self).data_rgb is Some ==> final(self).data_rgb == old(self).data_rgb
                &&& old(self).data_rgb is None ==> (final(self).data_rgb matches Some(v) && v@.len()
                    == 3 * lanes.0 * frame_height)
            },
    {
        let format = frame_pixel_format(code);
        match format {
            Some(f) => {
                decoded_frame_to_rgba(
                    f,
                    lanes,
                    frame_height,
                    plane_y,
                    plane_u,
                    plane_v,
                    img_out_width,
                    img_out_height,
                    &mut self.data_rgba,
                    &mut self.data_rgb,
                );
                Some(f)
            },
            None => None,
        }
    }
}

/// What a decoding reports once the codec has no more frame for the packet:
/// whether a frame was converted into the image, and the time spent in the
/// codec and in the conversion, named `dec` and `yuv`, in that order.
pub fn decode_report(updated: bool, duration_decode: Duration, duration_yuv: Duration) -> (r: (
    Option<()>,
    Option<DecoderTimings>,
))
    ensures
        r.0 is Some <==> updated,
        r.1 matches Some(t) && {
            &&& t.times@.len() == 2
            &&& t.times@[0].0@ == "dec"@ && t.times@[0].1 == duration_decode
            &&& t.times@[1].0@ == "yuv"@ && t.times@[1].1 == duration_yuv
        },
{
    let times = vec![("dec", duration_decode), ("yuv", duration_yuv)];
    let img_updated = if updated {
        Some(())
    } else {
        None
    };
    (img_updated, Some(DecoderTimings { times }))
}

/// What the codec answers when asked for a decoded frame of the packet it
/// was sent.
#[derive(Debug, Clone, Copy, PartialEq, Eq)]
pub enum ReceiveStatus {
    /// A frame was decoded, and converted into the image.
    Frame,
    /// The codec needs another packet, or the stream ended: the packet is
    /// done with.
    Done,
}

/// Number of frames the codec gives, among the answers `answers`, before
/// its first `Done` (the answers after it are never asked for).
pub open spec fn frames_before_done(answers: Seq<ReceiveStatus>) -> nat
    decreases answers.len(),
{
    if answers.len() == 0 || answers[0] == ReceiveStatus::Done {
        0
    } else {
        1 + frames_before_done(answers.drop_first())
    }
}

/// What the decoding of a packet reports from the codec's answers, in
/// order: the frames are taken until the codec is done with the packet;
/// the image was updated when at least one frame came (each later one
/// replaces the one before); the timings are those of `decode_report`.
/// Also gives the number of frames taken.
pub fn decode_packet(answers: &[ReceiveStatus], duration_decode: Duration, duration_yuv: Duration) -> (r: (
    Option<()>,
    Option<DecoderTimings>,
    usize,
))
    ensures
        r.2 == frames_before_done(answers@),
        r.0 is Some <==> frames_before_done(answers@) > 0,
        r.1 matches Some(t) && {
            &&& t.times@.len() == 2
            &&& t.times@[0].0@ == "dec"@ && t.times@[0].1 == duration_decode
            &&& t.times@[1].0@ == "yuv"@ && t.times@[1].1 == duration_yuv
        },
{
    let mut frames: usize = 0;
    let mut i: usize = 0;
    while i < answers.len() && is_frame(answers[i])
        invariant
            i <= answers@.len(),
            frames == i,
            forall|k: int| 0 <= k < i ==> answers@[k] == ReceiveStatus::Frame,
        decreases answers@.len() - i,
    {
        frames = frames + 1;
        i = i + 1;
    }
    proof {
        lemma_frames_before_done(answers@, i as int);
    }
    let (updated, timings) = decode_report(frames > 0, duration_decode, duration_yuv);
    (updated, timings, frames)
}

/// Whether the answer is a frame.
fn is_frame(a: ReceiveStatus) -> (r: bool)
    ensures
        r <==> a == ReceiveStatus::Frame,
{
    match a {
        ReceiveStatus::Frame => true,
        ReceiveStatus::Done => false,
    }
}

proof fn lemma_frames_before_done(answers: Seq<ReceiveStatus>, n: int)
    requires
        0 <= n <= answers.len(),
        forall|k: int| 0 <= k < n ==> answers[k] == ReceiveStatus::Frame,
        n < answers.len() ==> answers[n] == ReceiveStatus::Done,
    ensures
        frames_before_done(answers) == n,
    decreases n,
{
    if n > 0 {
        lemma_frames_before_done(answers.drop_first(), n - 1);
    }
}

/// The luma and chroma bytes a decoded frame gives pixel `(c, r)`: the
/// pixel's own Y byte, and the U and V bytes of its 2x2 block (4:2:0, NV12,
/// where U comes just before V in the interleaved plane) or of the pixel
/// itself (4:4:4).
pub open spec fn frame_pixel_yuv(
    format: FramePixelFormat,
    lanes: (usize, usize, usize),
    plane_y: Seq<u8>,
    plane_u: Seq<u8>,
    plane_v: Seq<u8>,
    r: int,
    c: int,
) -> (u8, u8, u8) {
    let y = plane_y[r * lanes.0 + c];
    match format {
        FramePixelFormat::Yuv420p => (y, plane_u[(r / 2) * lanes.1 + c / 2], plane_v[(r / 2) * lanes.2 + c / 2]),
        FramePixelFormat::Nv12 => (
            y,
            plane_u[(r / 2) * lanes.1 + 2 * (c / 2)],
            plane_u[(r / 2) * lanes.1 + 2 * (c / 2) + 1],
        ),
        FramePixelFormat::Yuv444p => (y, plane_u[r * lanes.1 + c], plane_v[r * lanes.2 + c]),
    }
}

/// Law: each pixel of the image a frame gives (all of them for 4:4:4; the
/// pixels of whole 2x2 blocks for 4:2:0 and NV12) has, with the JPEG
/// coefficients, the red of its luma and its V byte, the blue of its luma
/// and its U byte, and the green of all three; the red never depends on U
/// nor the blue on V.
pub proof fn lemma_frame_image_pixels(
    format: FramePixelFormat,
    lanes: (usize, usize, usize),
    plane_y: Seq<u8>,
    plane_u: Seq<u8>,
    plane_v: Seq<u8>,
    img_out_width: u16,
    img_out_height: u16,
    init: Seq<u8>,
)
    requires
        4 * (img_out_width * img_out_height) <= init.len(),
    ensures
        forall|r: int, c: int|
            #![trigger frame_pixel_yuv(format, lanes, plane_y, plane_u, plane_v, r, c)]
            0 <= r && 0 <= c && (if format == FramePixelFormat::Yuv444p {
                r < img_out_height && c < img_out_width
            } else {
                r < 2 * (img_out_height / 2) && c < 2 * (img_out_width / 2)
            }) ==> {
                let img = frame_image(
                    format,
                    lanes,
                    plane_y,
                    plane_u,
                    plane_v,
                    img_out_width,
                    img_out_height,
                    init,
                );
                let o = r * (4 * img_out_width) + 4 * c;
                let (y, u, v) = frame_pixel_yuv(format, lanes, plane_y, plane_u, plane_v, r, c);
                &&& img[o] == clamp_byte(y + (90 * (v - 128)) / 64)
                &&& img[o + 1] == clamp_byte(y - (44 * (u - 128) + 91 * (v - 128)) / 128)
                &&& img[o + 2] == clamp_byte(y + (113 * (u - 128)) / 64)
            },
{
    let w = img_out_width as int;
    let h = img_out_height as int;
    let q = spec_yuv_to_rgb_param(YuvType::ItuT871);
    match format {
        FramePixelFormat::Yuv444p => {
            if h > 0 {
                assert((h - 1) * (4 * w) + 4 * w <= init.len()) by (nonlinear_arith)
                    requires
                        4 * (w * h) <= init.len(),
                        w >= 0,
                        h > 0,
                ;
            }
            lemma_yuv444_to_rgba_pixels(
                q,
                plane_y,
                plane_u,
                plane_v,
                lanes.0 as int,
                lanes.1 as int,
                lanes.2 as int,
                4 * w,
                init,
                w as nat,
                h as nat,
            );
            assert forall|r: int, c: int|
                #![trigger frame_pixel_yuv(format, lanes, plane_y, plane_u, plane_v, r, c)]
                0 <= r < h && 0 <= c < w implies {
                    let img = frame_image(format, lanes, plane_y, plane_u, plane_v, img_out_width, img_out_height, init);
                    let o = r * (4 * w) + 4 * c;
                    let (y, u, v) = frame_pixel_yuv(format, lanes, plane_y, plane_u, plane_v, r, c);
                    &&& img[o] == clamp_byte(y + (90 * (v - 128)) / 64)
                    &&& img[o + 1] == clamp_byte(y - (44 * (u - 128) + 91 * (v - 128)) / 128)
                    &&& img[o + 2] == clamp_byte(y + (113 * (u - 128)) / 64)
                } by {
                let (y, u, v) = frame_pixel_yuv(format, lanes, plane_y, plane_u, plane_v, r, c);
                assert(yuv444_pixel_rgb(q, plane_y, plane_u, plane_v, lanes.0 as int, lanes.1 as int, lanes.2 as int, r, c)
                    == rgb_of(q, y, u, v));
                lemma_jpeg_rgb_of(y, u, v);
            }
        },
        _ => {
            if w / 2 > 0 && h / 2 > 0 {
                assert((2 * (h / 2) - 1) * (4 * w) + 8 * (w / 2 - 1) + 6 < init.len()) by (nonlinear_arith)
                    requires
                        4 * (w * h) <= init.len(),
                        w / 2 > 0,
                        h / 2 > 0,
                ;
            }
            let (us, vs, cstep, voff, ust, vst) = if format == FramePixelFormat::Yuv420p {
                (plane_u, plane_v, 1int, 0int, lanes.1 as int, lanes.2 as int)
            } else {
                (plane_u, plane_u, 2int, 1int, lanes.1 as int, lanes.1 as int)
            };
            lemma_yuv420_rgba_pixels(plane_y, us, vs, lanes.0 as int, ust, vst, cstep, voff, w, h, init);
            assert forall|r: int, c: int|
                #![trigger frame_pixel_yuv(format, lanes, plane_y, plane_u, plane_v, r, c)]
                0 <= r < 2 * (h / 2) && 0 <= c < 2 * (w / 2) implies {
                    let img = frame_image(format, lanes, plane_y, plane_u, plane_v, img_out_width, img_out_height, init);
                    let o = r * (4 * w) + 4 * c;
                    let (y, u, v) = frame_pixel_yuv(format, lanes, plane_y, plane_u, plane_v, r, c);
                    &&& img[o] == clamp_byte(y + (90 * (v - 128)) / 64)
                    &&& img[o + 1] == clamp_byte(y - (44 * (u - 128) + 91 * (v - 128)) / 128)
                    &&& img[o + 2] == clamp_byte(y + (113 * (u - 128)) / 64)
                } by {
                let img = frame_image(format, lanes, plane_y, plane_u, plane_v, img_out_width, img_out_height, init);
                let out = apply_rows(
                    init,
                    (h / 2) as nat,
                    (w / 2) as nat,
                    yuv420_rgba_step(q, plane_y, us, vs, lanes.0 as int, ust, vst, cstep, voff, 4 * w),
                );
                assert(img == out);
                let o = r * (4 * w) + 4 * c;
                let (y, u, v) = frame_pixel_yuv(format, lanes, plane_y, plane_u, plane_v, r, c);
                assert(us[(r / 2) * ust + cstep * (c / 2)] == u);
                assert(vs[(r / 2) * vst + cstep * (c / 2) + voff] == v);
                assert(plane_y[r * lanes.0 + c] == y);
                let p0 = yuv420_pixel_channel(plane_y, us, vs, lanes.0 as int, ust, vst, cstep, voff, r, c, 0);
                let p1 = yuv420_pixel_channel(plane_y, us, vs, lanes.0 as int, ust, vst, cstep, voff, r, c, 1);
                let p2 = yuv420_pixel_channel(plane_y, us, vs, lanes.0 as int, ust, vst, cstep, voff, r, c, 2);
                assert(out[r * (4 * w) + 4 * c + 0] == p0);
                assert(out[r * (4 * w) + 4 * c + 1] == p1);
                assert(out[r * (4 * w) + 4 * c + 2] == p2);
                assert(r * (4 * w) + 4 * c + 0 == o);
            }
        },
    }
}

} // verus!
