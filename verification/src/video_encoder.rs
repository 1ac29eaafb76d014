//! Video encoders: the pass-through encoder, the settings an FFmpeg encoder
//! is built and rebuilt from, and the preparation of the planes that are
//! handed to the codec.

use crate::keyed::KeyedList;
use crate::text::{push_char, text_chars};
use crate::yuv::{
    apply_row, apply_rows, grid_step, lemma_grid_rows, fits_halves, fits_pairs, nv12_uv_step, rgba_to_nv12_std,
    rgba_to_yuv420_std, rgba_to_yuv444_std, spec_rgb_to_yuv_param, yuv420_u_step, yuv420_v_step,
    yuv420_y_step, yuv444_u_step, yuv444_v_step, yuv444_y_step, RgbToYuvParam, YuvType,
};
use std::time::Duration;
use vstd::arithmetic::mul::lemma_mul_inequality;
use vstd::prelude::*;

verus! {

/// Why an encoder refuses a request.
#[derive(Debug, Clone, PartialEq, Eq)]
pub enum EncoderError {
    /// The encoder name, which belongs to no known codec family.
    UnknownCategory(String),
    /// The number of the codec's pixel format, which is not supported.
    UnsupportedPixelFormat(i32),
    /// A line of the option command's output holds no `=`.
    MissingOptionValue,
}

/// `size` rounded up to the next multiple of 64.
pub open spec fn spec_round_size_up(size: int) -> int {
    ((size + 63) / 64) * 64
}

/// Rounds a dimension up to the next multiple of 64, the size of the
/// buffers that the codec planes are prepared in.
pub fn round_size_up(size: usize) -> (r: usize)
    requires
        size + 0x3F <= usize::MAX,
    ensures
        r == spec_round_size_up(size as int),
        r % 64 == 0,
        size <= r < size + 64,
{
    let s = size + 0x3F;
    let r = s & !0x3Fusize;
    assert(s & !0x3Fusize == s - s % 64) by (bit_vector);
    r
}

/// The codec family of an encoder: `h264`, `hevc` or `null`.
pub open spec fn encoder_category(name: Seq<char>) -> Option<Seq<char>> {
    if name == "libx264"@ || name == "h264_nvenc"@ || name == "h264_qsv"@ || name
        == "h264_v4l2m2m"@ {
        Some("h264"@)
    } else if name == "libx265"@ || name == "hevc_nvenc"@ || name == "hevc_qsv"@ {
        Some("hevc"@)
    } else if name == "null"@ {
        Some("null"@)
    } else {
        None
    }
}

/// Whether `a` and `b` hold the same characters.
fn same_text(a: &str, b: &str) -> (r: bool)
    ensures
        r == (a@ == b@),
{
    let x = a.to_owned();
    let y = b.to_owned();
    x == y
}

/// The codec family of the encoder `encoder_name`.
pub fn get_encoder_category(encoder_name: &str) -> (res: Result<String, EncoderError>)
    ensures
        match res {
            Ok(c) => encoder_category(encoder_name@) == Some(c@),
            Err(e) => encoder_category(encoder_name@) is None && (e matches EncoderError::UnknownCategory(n)
                && n@ == encoder_name@),
        },
{
    if same_text(encoder_name, "libx264") || same_text(encoder_name, "h264_nvenc") || same_text(
        encoder_name,
        "h264_qsv",
    ) || same_text(encoder_name, "h264_v4l2m2m") {
        Ok("h264".to_owned())
    } else if same_text(encoder_name, "libx265") || same_text(encoder_name, "hevc_nvenc")
        || same_text(encoder_name, "hevc_qsv") {
        Ok("hevc".to_owned())
    } else if same_text(encoder_name, "null") {
        Ok("null".to_owned())
    } else {
        Err(EncoderError::UnknownCategory(encoder_name.to_owned()))
    }
}

/// Durations of the steps of an encoding, by name.
pub struct EncoderTimings {
    pub times: Vec<(&'static str, Duration)>,
}

/// A video encoder.
pub trait Encoder {
    /// The encoder sends raw frames.
    fn is_raw(&self) -> bool;

    /// The encoder uses SSSE3 instructions.
    fn has_ssse3(&self) -> bool;

    /// Name of the codec.
    fn name(&self) -> String;

    /// The options the codec was opened with, by name.
    fn options(&self) -> KeyedList<String>;

    /// Frame rate, as a numerator and a denominator.
    fn framerate(&self) -> (i32, i32);

    /// Encodes a `width` x `height` image of `bytes_per_line` bytes per line;
    /// `count` is the number of the frame.
    fn encode_image(
        &mut self,
        image: &[u8],
        width: u32,
        height: u32,
        bytes_per_line: u32,
        count: i64,
    ) -> Result<(Vec<u8>, EncoderTimings), EncoderError>;
}

/// The pass-through encoder: frames are sent as they are.
#[derive(Debug, Default)]
pub struct EncoderNull {}

impl EncoderNull {
    pub fn new() -> Self {
        EncoderNull {  }
    }

    /// A new pass-through encoder (it has no state to carry over).
    pub fn reload(&self) -> Self {
        EncoderNull {  }
    }

    /// A new pass-through encoder: the size of the frames does not matter to it.
    pub fn change_resolution(&mut self, width: u32, height: u32) -> Self {
        EncoderNull {  }
    }
}

impl Encoder for EncoderNull {
    fn is_raw(&self) -> (r: bool)
        ensures
            r,
    {
        true
    }

    fn has_ssse3(&self) -> (r: bool)
        ensures
            !r,
    {
        false
    }

    fn name(&self) -> (r: String)
        ensures
            r@ == Seq::<char>::empty(),
    {
        let r = String::new();
        r
    }

    fn options(&self) -> (r: KeyedList<String>)
        ensures
            r@ == Map::<Seq<char>, String>::empty(),
    {
        KeyedList::new()
    }

    fn framerate(&self) -> (r: (i32, i32))
        ensures
            r == (0i32, 0i32),
    {
        (0, 0)
    }

    fn encode_image(
        &mut self,
        image: &[u8],
        width: u32,
        height: u32,
        bytes_per_line: u32,
        count: i64,
    ) -> (res: Result<(Vec<u8>, EncoderTimings), EncoderError>)
        ensures
            res matches Ok((out, timings)) && out@ == image@ && timings.times@.len() == 0,
    {
        Ok((vstd::slice::slice_to_vec(image), EncoderTimings { times: Vec::new() }))
    }
}

/// The character of the decimal digit `d`.
pub open spec fn digit_char(d: nat) -> char {
    (d + 48) as char
}

/// `n` written in decimal, without leading zeros.
pub open spec fn decimal(n: nat) -> Seq<char>
    decreases n,
{
    if n < 10 {
        seq![digit_char(n)]
    } else {
        decimal(n / 10).push(digit_char(n % 10))
    }
}

/// The size of a frame as the codec takes it: `WxH`, in decimal.
pub open spec fn size_text(width: u16, height: u16) -> Seq<char> {
    decimal(width as nat) + seq!['x'] + decimal(height as nat)
}

/// Calls `u16::to_string`: std writes an integer's `Display` in decimal,
/// without leading zeros.
#[verifier::external_body]
fn decimal_text(n: u16) -> (s: String)
    ensures
        s@ == decimal(n as nat),
{
    n.to_string()
}

/// The size of a frame as the codec takes it: `WxH`, in decimal.
fn format_size(width: u16, height: u16) -> (s: String)
    ensures
        s@ == size_text(width, height),
{
    let w = decimal_text(width);
    let h = decimal_text(height);
    let s = w.concat("x");
    proof {
        reveal_strlit("x");
    }
    let s = s.concat(h.as_str());
    s
}

/// The values of a map of strings, as text.
pub open spec fn text_values(m: Map<Seq<char>, String>) -> Map<Seq<char>, Seq<char>> {
    m.map_values(|s: String| s@)
}

/// An optional string, as text.
pub open spec fn opt_text(o: Option<String>) -> Option<Seq<char>> {
    match o {
        Some(s) => Some(s@),
        None => None,
    }
}

proof fn lemma_text_values_insert(m: Map<Seq<char>, String>, k: Seq<char>, v: String)
    ensures
        text_values(m.insert(k, v)) == text_values(m).insert(k, v@),
{
    assert(text_values(m.insert(k, v)) =~= text_values(m).insert(k, v@));
}

proof fn lemma_text_values_union(a: Map<Seq<char>, String>, b: Map<Seq<char>, String>)
    ensures
        text_values(a.union_prefer_right(b)) == text_values(a).union_prefer_right(text_values(b)),
{
    assert(text_values(a.union_prefer_right(b)) =~= text_values(a).union_prefer_right(
        text_values(b),
    ));
}

/// What an FFmpeg encoder is built from.
pub struct EncoderSettings {
    /// Name of the codec.
    pub name: Seq<char>,
    /// Options, by name, kept to build the encoder again.
    pub options: Map<Seq<char>, Seq<char>>,
    /// Frame rate, as a numerator and a denominator.
    pub framerate: (i32, i32),
    /// Command whose output gives more options at each build.
    pub command: Option<Seq<char>>,
    /// Size given to the codec alone, not kept among the options.
    pub video_size: Option<Seq<char>>,
}

/// Holds what is needed to build an FFmpeg encoder.
#[derive(Debug)]
pub struct EncoderBuilder {
    name: String,
    options: KeyedList<String>,
    framerate: (i32, i32),
    command: Option<String>,
    video_size: Option<String>,
}

impl View for EncoderBuilder {
    type V = EncoderSettings;

    closed spec fn view(&self) -> EncoderSettings {
        EncoderSettings {
            name: self.name@,
            options: text_values(self.options@),
            framerate: self.framerate,
            command: opt_text(self.command),
            video_size: opt_text(self.video_size),
        }
    }
}

impl EncoderBuilder {
    /// A builder of the codec `name`, with no option, 25 frames per second
    /// and no option command.
    pub fn new(name: &str) -> (b: Self)
        ensures
            b@ == (EncoderSettings {
                name: name@,
                options: Map::empty(),
                framerate: (25i32, 1i32),
                command: None,
                video_size: None,
            }),
    {
        let options = KeyedList::new();
        let b = EncoderBuilder {
            name: name.to_owned(),
            options,
            framerate: (25, 1),
            command: None,
            video_size: None,
        };
        assert(text_values(b.options@) =~= Map::empty());
        b
    }

    /// Sets the codec option `name` to `val`, and keeps it.
    pub fn set_option(&mut self, name: &str, val: &str)
        ensures
            final(self)@ == (EncoderSettings { options: old(self)@.options.insert(name@, val@), ..old(self)@ }),
    {
        let k = name.to_owned();
        let v = val.to_owned();
        proof {
            lemma_text_values_insert(self.options@, k@, v);
        }
        self.options.insert(k, v);
    }

    /// Sets each option of `opts`, in place of any value it had.
    pub fn set_options(&mut self, opts: &KeyedList<String>)
        ensures
            final(self)@ == (EncoderSettings {
                options: old(self)@.options.union_prefer_right(text_values(opts@)),
                ..old(self)@
            }),
    {
        proof {
            lemma_text_values_union(self.options@, opts@);
        }
        self.options.set_all(opts);
    }

    /// Sets the frame rate to `num / den`.
    pub fn set_framerate(&mut self, num: i32, den: i32)
        ensures
            final(self)@ == (EncoderSettings { framerate: (num, den), ..old(self)@ }),
    {
        self.framerate = (num, den);
    }

    /// Sets the command run at each build to get more options.
    pub fn set_command(&mut self, command: &str)
        ensures
            final(self)@ == (EncoderSettings { command: Some(command@), ..old(self)@ }),
    {
        self.command = Some(command.to_owned());
    }

    /// Gives the codec the frame size `width` x `height`, without keeping it
    /// among the options.
    pub fn set_video_size(&mut self, width: u16, height: u16)
        ensures
            final(self)@ == (EncoderSettings {
                video_size: Some(size_text(width, height)),
                ..old(self)@
            }),
    {
        self.video_size = Some(format_size(width, height));
    }

    /// Name of the codec.
    pub fn name(&self) -> (s: String)
        ensures
            s@ == self@.name,
    {
        self.name.clone()
    }

    /// The options kept.
    pub fn options(&self) -> (o: &KeyedList<String>)
        ensures
            text_values(o@) == self@.options,
    {
        &self.options
    }

    /// The frame rate.
    pub fn framerate(&self) -> (f: (i32, i32))
        ensures
            f == self@.framerate,
    {
        self.framerate
    }

    /// The option command, if any.
    pub fn command(&self) -> (c: Option<String>)
        ensures
            opt_text(c) == self@.command,
    {
        match &self.command {
            Some(c) => Some(c.clone()),
            None => None,
        }
    }
}

/// An encoder chosen by name: the pass-through one, or an FFmpeg encoder
/// still to be opened.
pub enum EncoderChoice {
    Null(EncoderNull),
    FFmpeg(EncoderBuilder),
}

/// The text of the options of an optional map, or no option.
pub open spec fn opt_options(o: Option<&KeyedList<String>>) -> Map<Seq<char>, Seq<char>> {
    match o {
        Some(m) => text_values(m@),
        None => Map::empty(),
    }
}

/// Chooses the encoder `name`: `null` is the pass-through encoder; any other
/// name is an FFmpeg codec, with the global options, then the options of the
/// codec (which win over the global ones), the option command, the frame
/// size `size` and 25 frames per second.
pub fn init_video_encoder(
    name: &str,
    global_options: Option<&KeyedList<String>>,
    codec_options: Option<&KeyedList<String>>,
    command_options: &Option<String>,
    size: (u16, u16),
) -> (r: EncoderChoice)
    ensures
        name@ == "null"@ ==> r is Null,
        name@ != "null"@ ==> (r matches EncoderChoice::FFmpeg(b) && b@ == (EncoderSettings {
            name: name@,
            options: opt_options(global_options).union_prefer_right(opt_options(codec_options)),
            framerate: (25i32, 1i32),
            command: opt_text(*command_options),
            video_size: Some(size_text(size.0, size.1)),
        })),
{
    if same_text(name, "null") {
        return EncoderChoice::Null(EncoderNull::new());
    }
    let mut enc = EncoderBuilder::new(name);
    let ghost empty = Map::<Seq<char>, Seq<char>>::empty();
    if let Some(opts) = global_options {
        enc.set_options(opts);
    }
    assert(enc@.options =~= empty.union_prefer_right(opt_options(global_options)));
    if let Some(opts) = codec_options {
        enc.set_options(opts);
    }
    assert(enc@.options =~= opt_options(global_options).union_prefer_right(
        opt_options(codec_options),
    ));
    if let Some(command) = command_options {
        enc.set_command(command.as_str());
    }
    enc.set_video_size(size.0, size.1);
    enc.set_framerate(25, 1);
    EncoderChoice::FFmpeg(enc)
}

/// Pixel format of the frames an FFmpeg encoder takes.
#[derive(Debug, Clone, Copy, PartialEq, Eq)]
pub enum EncoderPixelFormat {
    /// Planar Y, U, V, chroma halved in both directions.
    Yuv420p,
    /// Planar Y, U, V at full resolution.
    Yuv444p,
    /// Y plane and one plane of interleaved U and V, chroma halved.
    Nv12,
    /// Packed RGB, four bytes per pixel.
    Rgb0,
    /// Any other format, by its number.
    Other(i32),
}

/// The planes of the frame handed to the codec.
pub struct FramePlanes {
    pub plane0: Vec<u8>,
    pub plane1: Vec<u8>,
    pub plane2: Vec<u8>,
}

/// `dst` with its first `n` bytes replaced by those of `src`.
pub open spec fn with_prefix(dst: Seq<u8>, src: Seq<u8>, n: int) -> Seq<u8> {
    src.subrange(0, n) + dst.subrange(n, dst.len() as int)
}

/// Copies the first `n` bytes of `src` over those of `dst`.
fn copy_prefix(dst: &mut Vec<u8>, src: &[u8], n: usize)
    requires
        n <= src@.len(),
        n <= old(dst)@.len(),
    ensures
        final(dst)@ == with_prefix(old(dst)@, src@, n as int),
{
    let ghost d0 = dst@;
    let mut i: usize = 0;
    while i < n
        invariant
            i <= n,
            n <= src@.len(),
            n <= d0.len(),
            dst@.len() == d0.len(),
            forall|k: int| 0 <= k < i ==> dst@[k] == src@[k],
            forall|k: int| i <= k < d0.len() ==> dst@[k] == d0[k],
        decreases n - i,
    {
        dst.set(i, src[i]);
        i = i + 1;
    }
    assert(dst@ =~= with_prefix(d0, src@, n as int));
}

/// The smaller of `a` and `b`.
pub open spec fn min_int(a: int, b: int) -> int {
    if a <= b {
        a
    } else {
        b
    }
}

/// Write of the RGB0 copy for byte `i` of row `j`.
pub open spec fn row_copy_step(image: Seq<u8>, plane_bpl: int, image_bpl: int) -> spec_fn(
    Seq<u8>,
    int,
    int,
) -> Seq<u8> {
    |b: Seq<u8>, j: int, i: int| b.update(j * plane_bpl + i, image[j * image_bpl + i])
}

/// Copies the `height` lines of an RGB0 image of `image_bpl` bytes per line
/// into a plane of `plane_bpl` bytes per line: each line gives as many bytes
/// as the shorter of the two lines holds.
pub fn copy_rgb0_plane(
    image: &[u8],
    image_bpl: usize,
    height: usize,
    plane: &mut [u8],
    plane_bpl: usize,
)
    requires
        height > 0 ==> (height - 1) * image_bpl + min_int(plane_bpl as int, image_bpl as int)
            <= image@.len(),
        plane_bpl * height <= old(plane)@.len(),
    ensures
        final(plane)@ == apply_rows(
            old(plane)@,
            height as nat,
            min_int(plane_bpl as int, image_bpl as int) as nat,
            row_copy_step(image@, plane_bpl as int, image_bpl as int),
        ),
{
    let n = if plane_bpl == image_bpl {
        plane_bpl
    } else if plane_bpl < image_bpl {
        plane_bpl
    } else {
        image_bpl
    };
    let ghost st = row_copy_step(image@, plane_bpl as int, image_bpl as int);
    let ghost p0 = plane@;
    let image_len = image.len();
    let plane_len = plane.len();
    let mut row: usize = 0;
    while row < height
        invariant
            row <= height,
            image_len == image@.len(),
            plane_len == p0.len(),
            n == min_int(plane_bpl as int, image_bpl as int),
            st == row_copy_step(image@, plane_bpl as int, image_bpl as int),
            height > 0 ==> (height - 1) * image_bpl + n <= image@.len(),
            plane_bpl * height <= p0.len(),
            plane@.len() == p0.len(),
            plane@ == apply_rows(p0, row as nat, n as nat, st),
        decreases height - row,
    {
        proof {
            lemma_mul_inequality(row as int, height - 1, image_bpl as int);
            lemma_mul_inequality(row as int + 1, height as int, plane_bpl as int);
            assert((row + 1) * plane_bpl == row * plane_bpl + plane_bpl) by (nonlinear_arith);
            assert(plane_bpl * height == height * plane_bpl) by (nonlinear_arith);
        }
        let mut i: usize = 0;
        while i < n
            invariant
                i <= n,
                row < height,
                image_len == image@.len(),
                plane_len == p0.len(),
                n == min_int(plane_bpl as int, image_bpl as int),
                st == row_copy_step(image@, plane_bpl as int, image_bpl as int),
                row * image_bpl + n <= image@.len(),
                row * plane_bpl + plane_bpl <= p0.len(),
                plane@.len() == p0.len(),
                plane@ == apply_row(apply_rows(p0, row as nat, n as nat, st), row as int, i as nat, st),
            decreases n - i,
        {
            let src = row * image_bpl + i;
            let dst = row * plane_bpl + i;
            let ghost before = plane@;
            plane[dst] = image[src];
            assert(plane@ == st(before, row as int, i as int));
            i = i + 1;
        }
        row = row + 1;
    }
}

/// Law: each byte that the RGB0 copy writes is the image byte at the same
/// line and column.
pub proof fn lemma_rgb0_copy_pixels(
    image: Seq<u8>,
    plane: Seq<u8>,
    image_bpl: int,
    plane_bpl: int,
    height: nat,
)
    requires
        0 <= image_bpl,
        0 <= plane_bpl,
        height > 0 ==> (height - 1) * plane_bpl + min_int(plane_bpl, image_bpl) <= plane.len(),
    ensures
        forall|j: int, i: int|
            0 <= j < height && 0 <= i < min_int(plane_bpl, image_bpl) ==> #[trigger] apply_rows(
                plane,
                height,
                min_int(plane_bpl, image_bpl) as nat,
                row_copy_step(image, plane_bpl, image_bpl),
            )[j * plane_bpl + i] == image[j * image_bpl + i],
{
    let n = min_int(plane_bpl, image_bpl) as nat;
    let f = |j: int, i: int| image[j * image_bpl + i];
    assert(row_copy_step(image, plane_bpl, image_bpl) =~= grid_step(plane_bpl, f));
    lemma_grid_rows(plane, height, n, plane_bpl, f);
}

/// The parameters of the conversions done for the codec (full range JPEG).
pub open spec fn codec_param() -> RgbToYuvParam {
    spec_rgb_to_yuv_param(YuvType::ItuT871)
}

/// The state of an opened FFmpeg encoder that the library handles: what it
/// is built again from, the size of its frames, and the buffers its planes
/// are prepared in. The codec itself is held by the caller.
pub struct EncoderFFmpeg {
    /// What the encoder was built from.
    pub settings: EncoderBuilder,
    /// Size of the frames.
    pub size: (u16, u16),
    /// Y plane of the frame being prepared.
    pub image_y: Vec<u8>,
    /// U plane of the frame being prepared.
    pub image_u: Vec<u8>,
    /// V plane of the frame being prepared.
    pub image_v: Vec<u8>,
    /// Interleaved UV plane of the frame being prepared (NV12).
    pub image_uv: Vec<u8>,
}

/// Even part of `x`: `x` with its lowest bit cleared.
pub open spec fn even_part(x: u32) -> u32 {
    (x - x % 2) as u32
}

impl EncoderFFmpeg {
    /// The encoder built from `settings` once the codec was opened for
    /// frames of `width` x `height`: its size is the frame size with both
    /// sides rounded up to a multiple of 64 (the size its planes are prepared
    /// in, and the size a restart asks for), and each plane buffer holds an
    /// image of that size.
    pub fn new(settings: EncoderBuilder, width: usize, height: usize) -> (e: Self)
        requires
            width + 0x3F <= usize::MAX,
            height + 0x3F <= usize::MAX,
            spec_round_size_up(width as int) * spec_round_size_up(height as int) <= usize::MAX,
        ensures
            e.settings@ == settings@,
            e.size == (spec_round_size_up(width as int) as u16, spec_round_size_up(height as int) as u16),
            e.image_y@ == Seq::new((spec_round_size_up(width as int) * spec_round_size_up(height as int)) as nat, |i: int| 0u8),
            e.image_u@ == e.image_y@,
            e.image_v@ == e.image_y@,
            e.image_uv@ == e.image_y@,
    {
        let w = round_size_up(width);
        let h = round_size_up(height);
        let image_size_y = w * h;
        let image_y = vec![0u8; image_size_y];
        let image_u = vec![0u8; image_size_y];
        let image_v = vec![0u8; image_size_y];
        let image_uv = vec![0u8; image_size_y];
        let e = EncoderFFmpeg {
            settings,
            size: (w as u16, h as u16),
            image_y,
            image_u,
            image_v,
            image_uv,
        };
        assert(e.image_y@ =~= Seq::new(image_size_y as nat, |i: int| 0u8));
        assert(e.image_u@ =~= e.image_y@);
        assert(e.image_v@ =~= e.image_y@);
        assert(e.image_uv@ =~= e.image_y@);
        e
    }

    /// A builder of the same encoder for frames of the current size: the
    /// options kept, with `video_size` set to that size, the frame rate and
    /// the option command.
    pub fn reload(&self) -> (b: EncoderBuilder)
        ensures
            b@ == (EncoderSettings {
                name: self.settings@.name,
                options: self.settings@.options.insert("video_size"@, size_text(self.size.0, self.size.1)),
                framerate: self.settings@.framerate,
                command: self.settings@.command,
                video_size: None,
            }),
    {
        let name = self.settings.name();
        let mut builder = EncoderBuilder::new(name.as_str());
        builder.set_options(self.settings.options());
        assert(Map::<Seq<char>, Seq<char>>::empty().union_prefer_right(self.settings@.options)
            =~= self.settings@.options);
        let video_size = format_size(self.size.0, self.size.1);
        builder.set_option("video_size", video_size.as_str());
        proof {
            reveal_strlit("video_size");
        }
        let framerate = self.settings.framerate();
        builder.set_framerate(framerate.0, framerate.1);
        if let Some(command) = self.settings.command() {
            builder.set_command(command.as_str());
        }
        builder
    }

    /// Takes the new frame size, each size made even, and gives the builder
    /// of the encoder for it.
    pub fn change_resolution(&mut self, width: u32, height: u32) -> (b: EncoderBuilder)
        ensures
            final(self).size == (even_part(width) as u16, even_part(height) as u16),
            final(self).settings@ == old(self).settings@,
            b@ == (EncoderSettings {
                name: old(self).settings@.name,
                options: old(self).settings@.options.insert(
                    "video_size"@,
                    size_text(even_part(width) as u16, even_part(height) as u16),
                ),
                framerate: old(self).settings@.framerate,
                command: old(self).settings@.command,
                video_size: None,
            }),
    {
        let w = width & !1u32;
        let h = height & !1u32;
        assert(width & !1u32 == width - width % 2) by (bit_vector);
        assert(height & !1u32 == height - height % 2) by (bit_vector);
        self.size = (w as u16, h as u16);
        self.reload()
    }
}

/// The sizes of the planes handed to the codec for `height` lines with the
/// line sizes `lanes`: the Y plane, and the chroma planes.
pub open spec fn plane_sizes(format: EncoderPixelFormat, lanes: (u32, u32, u32), height: u32) -> (int, int) {
    match format {
        EncoderPixelFormat::Yuv444p => (lanes.0 * height, lanes.1 * height),
        EncoderPixelFormat::Rgb0 => (lanes.0 * height, 0),
        _ => (lanes.0 * height, (lanes.1 * height) / 2),
    }
}

/// The arguments of `fill_frame` on which the codec frame can be prepared:
/// the image holds the lines read, the work buffers and the frame planes
/// hold the lines written, and the plane sizes fit in 32 bits.
pub open spec fn frame_fill_ok(
    format: EncoderPixelFormat,
    image: Seq<u8>,
    width: u32,
    height: u32,
    bytes_per_line: u32,
    lanes: (u32, u32, u32),
    e: EncoderFFmpeg,
    frame: FramePlanes,
) -> bool {
    let w = width as int;
    let h = height as int;
    let bpl = bytes_per_line as int;
    let sizes = plane_sizes(format, lanes, height);
    match format {
        EncoderPixelFormat::Yuv420p => {
            &&& w >= 1 && h >= 1
            &&& fits_pairs(image.len() as int, w, h, bpl, 8, 6)
            &&& fits_pairs(e.image_y@.len() as int, w, h, lanes.0 as int, 2, 1)
            &&& fits_halves(e.image_u@.len() as int, w, h, lanes.1 as int, 1, 0)
            &&& fits_halves(e.image_v@.len() as int, w, h, lanes.2 as int, 1, 0)
            &&& lanes.0 * height <= u32::MAX && lanes.1 * height <= u32::MAX
            &&& sizes.0 <= e.image_y@.len() && sizes.0 <= frame.plane0@.len()
            &&& sizes.1 <= e.image_u@.len() && sizes.1 <= frame.plane1@.len()
            &&& sizes.1 <= e.image_v@.len() && sizes.1 <= frame.plane2@.len()
        },
        EncoderPixelFormat::Yuv444p => {
            &&& w > 0 && h > 0 ==> {
                &&& (h - 1) * bpl + 4 * (w - 1) + 2 < image.len()
                &&& (h - 1) * lanes.0 + w - 1 < e.image_y@.len()
                &&& (h - 1) * lanes.1 + w - 1 < e.image_u@.len()
                &&& (h - 1) * lanes.2 + w - 1 < e.image_v@.len()
            }
            &&& lanes.0 * height <= u32::MAX && lanes.1 * height <= u32::MAX
            &&& sizes.0 <= e.image_y@.len() && sizes.0 <= frame.plane0@.len()
            &&& sizes.1 <= e.image_u@.len() && sizes.1 <= frame.plane1@.len()
            &&& sizes.1 <= e.image_v@.len() && sizes.1 <= frame.plane2@.len()
        },
        EncoderPixelFormat::Nv12 => {
            &&& w >= 1 && h >= 1
            &&& fits_pairs(image.len() as int, w, h, bpl, 8, 6)
            &&& fits_pairs(e.image_y@.len() as int, w, h, lanes.0 as int, 2, 1)
            &&& fits_halves(e.image_uv@.len() as int, w, h, lanes.1 as int, 2, 1)
            &&& lanes.0 * height <= u32::MAX && lanes.1 * height <= u32::MAX
            &&& sizes.0 <= e.image_y@.len() && sizes.0 <= frame.plane0@.len()
            &&& sizes.1 <= e.image_uv@.len() && sizes.1 <= frame.plane1@.len()
        },
        EncoderPixelFormat::Rgb0 => {
            &&& h > 0 ==> (h - 1) * bpl + min_int(lanes.0 as int, bpl) <= image.len()
            &&& sizes.0 <= frame.plane0@.len()
        },
        EncoderPixelFormat::Other(_) => true,
    }
}

impl EncoderFFmpeg {
    /// Prepares the frame handed to the codec from a `width` x `height` RGBA
    /// image of `bytes_per_line` bytes per line. The codec's pixel format
    /// decides: the YUV formats are converted (full range JPEG parameters)
    /// into the work buffers, whose first bytes are then copied into the
    /// frame planes, `lanes` giving the line sizes of the planes; RGB0 lines
    /// are copied into the first plane; any other format is refused.
    #[allow(clippy::too_many_arguments)]
    pub fn fill_frame(
        &mut self,
        format: EncoderPixelFormat,
        image: &[u8],
        width: u32,
        height: u32,
        bytes_per_line: u32,
        lanes: (u32, u32, u32),
        frame: &mut FramePlanes,
    ) -> (res: Result<(), EncoderError>)
        requires
            frame_fill_ok(format, image@, width, height, bytes_per_line, lanes, *old(self), *old(frame)),
        ensures
            final(self).settings == old(self).settings,
            final(self).size == old(self).size,
            format matches EncoderPixelFormat::Other(n) ==> res == Err::<(), EncoderError>(
                EncoderError::UnsupportedPixelFormat(n),
            ),
            !(format is Other) ==> res is Ok,
            format == EncoderPixelFormat::Yuv420p ==> {
                &&& final(self).image_y@ == apply_rows(old(self).image_y@, (height / 2) as nat, (width / 2) as nat,
                    yuv420_y_step(codec_param(), image@, 4, bytes_per_line as int, lanes.0 as int))
                &&& final(self).image_u@ == apply_rows(old(self).image_u@, (height / 2) as nat, (width / 2) as nat,
                    yuv420_u_step(codec_param(), image@, 4, bytes_per_line as int, lanes.1 as int))
                &&& final(self).image_v@ == apply_rows(old(self).image_v@, (height / 2) as nat, (width / 2) as nat,
                    yuv420_v_step(codec_param(), image@, 4, bytes_per_line as int, lanes.2 as int))
                &&& final(self).image_uv@ == old(self).image_uv@
                &&& final(frame).plane0@ == with_prefix(old(frame).plane0@, final(self).image_y@,
                    plane_sizes(format, lanes, height).0)
                &&& final(frame).plane1@ == with_prefix(old(frame).plane1@, final(self).image_u@,
                    plane_sizes(format, lanes, height).1)
                &&& final(frame).plane2@ == with_prefix(old(frame).plane2@, final(self).image_v@,
                    plane_sizes(format, lanes, height).1)
            },
            format == EncoderPixelFormat::Yuv444p ==> {
                &&& final(self).image_y@ == apply_rows(old(self).image_y@, height as nat, width as nat,
                    yuv444_y_step(codec_param(), image@, bytes_per_line as int, lanes.0 as int))
                &&& final(self).image_u@ == apply_rows(old(self).image_u@, height as nat, width as nat,
                    yuv444_u_step(codec_param(), image@, bytes_per_line as int, lanes.1 as int))
                &&& final(self).image_v@ == apply_rows(old(self).image_v@, height as nat, width as nat,
                    yuv444_v_step(codec_param(), image@, bytes_per_line as int, lanes.2 as int))
                &&& final(self).image_uv@ == old(self).image_uv@
                &&& final(frame).plane0@ == with_prefix(old(frame).plane0@, final(self).image_y@,
                    plane_sizes(format, lanes, height).0)
                &&& final(frame).plane1@ == with_prefix(old(frame).plane1@, final(self).image_u@,
                    plane_sizes(format, lanes, height).1)
                &&& final(frame).plane2@ == with_prefix(old(frame).plane2@, final(self).image_v@,
                    plane_sizes(format, lanes, height).1)
            },
            format == EncoderPixelFormat::Nv12 ==> {
                &&& final(self).image_y@ == apply_rows(old(self).image_y@, (height / 2) as nat, (width / 2) as nat,
                    yuv420_y_step(codec_param(), image@, 4, bytes_per_line as int, lanes.0 as int))
                &&& final(self).image_uv@ == apply_rows(old(self).image_uv@, (height / 2) as nat, (width / 2) as nat,
                    nv12_uv_step(codec_param(), image@, bytes_per_line as int, lanes.1 as int))
                &&& final(self).image_u@ == old(self).image_u@
                &&& final(self).image_v@ == old(self).image_v@
                &&& final(frame).plane0@ == with_prefix(old(frame).plane0@, final(self).image_y@,
                    plane_sizes(format, lanes, height).0)
                &&& final(frame).plane1@ == with_prefix(old(frame).plane1@, final(self).image_uv@,
                    plane_sizes(format, lanes, height).1)
                &&& final(frame).plane2@ == old(frame).plane2@
            },
            format == EncoderPixelFormat::Rgb0 ==> {
                &&& final(self).image_y@ == old(self).image_y@
                &&& final(self).image_u@ == old(self).image_u@
                &&& final(self).image_v@ == old(self).image_v@
                &&& final(self).image_uv@ == old(self).image_uv@
                &&& final(frame).plane0@ == apply_rows(old(frame).plane0@, height as nat,
                    min_int(lanes.0 as int, bytes_per_line as int) as nat,
                    row_copy_step(image@, lanes.0 as int, bytes_per_line as int))
                &&& final(frame).plane1@ == old(frame).plane1@
                &&& final(frame).plane2@ == old(frame).plane2@
            },
            format is Other ==> {
                &&& final(self).image_y@ == old(self).image_y@
                &&& final(self).image_u@ == old(self).image_u@
                &&& final(self).image_v@ == old(self).image_v@
                &&& final(self).image_uv@ == old(self).image_uv@
                &&& final(frame).plane0@ == old(frame).plane0@
                &&& final(frame).plane1@ == old(frame).plane1@
                &&& final(frame).plane2@ == old(frame).plane2@
            },
    {
        let w = width as usize;
        let h = height as usize;
        let bpl = bytes_per_line as usize;
        match format {
            EncoderPixelFormat::Yuv420p => {
                rgba_to_yuv420_std(
                    w,
                    h,
                    image,
                    bpl,
                    self.image_y.as_mut_slice(),
                    self.image_u.as_mut_slice(),
                    self.image_v.as_mut_slice(),
                    lanes.0 as usize,
                    lanes.1 as usize,
                    lanes.2 as usize,
                    YuvType::ItuT871,
                );
                let y_size = (lanes.0 * height) as usize;
                let uv_size = (lanes.1 * height / 2) as usize;
                copy_prefix(&mut frame.plane0, self.image_y.as_slice(), y_size);
                copy_prefix(&mut frame.plane1, self.image_u.as_slice(), uv_size);
                copy_prefix(&mut frame.plane2, self.image_v.as_slice(), uv_size);
                Ok(())
            },
            EncoderPixelFormat::Yuv444p => {
                rgba_to_yuv444_std(
                    w,
                    h,
                    image,
                    bpl,
                    self.image_y.as_mut_slice(),
                    self.image_u.as_mut_slice(),
                    self.image_v.as_mut_slice(),
                    lanes.0 as usize,
                    lanes.1 as usize,
                    lanes.2 as usize,
                    YuvType::ItuT871,
                );
                let y_size = (lanes.0 * height) as usize;
                let uv_size = (lanes.1 * height) as usize;
                copy_prefix(&mut frame.plane0, self.image_y.as_slice(), y_size);
                copy_prefix(&mut frame.plane1, self.image_u.as_slice(), uv_size);
                copy_prefix(&mut frame.plane2, self.image_v.as_slice(), uv_size);
                Ok(())
            },
            EncoderPixelFormat::Nv12 => {
                rgba_to_nv12_std(
                    w,
                    h,
                    image,
                    bpl,
                    self.image_y.as_mut_slice(),
                    self.image_uv.as_mut_slice(),
                    lanes.0 as usize,
                    lanes.1 as usize,
                    YuvType::ItuT871,
                );
                let y_size = (lanes.0 * height) as usize;
                let uv_size = (lanes.1 * height / 2) as usize;
                copy_prefix(&mut frame.plane0, self.image_y.as_slice(), y_size);
                copy_prefix(&mut frame.plane1, self.image_uv.as_slice(), uv_size);
                Ok(())
            },
            EncoderPixelFormat::Rgb0 => {
                let plane_bpl = lanes.0 as usize;
                assert(plane_bpl * h == lanes.0 * height);
                copy_rgb0_plane(image, bpl, h, frame.plane0.as_mut_slice(), plane_bpl);
                Ok(())
            },
            EncoderPixelFormat::Other(n) => Err(EncoderError::UnsupportedPixelFormat(n)),
        }
    }
}

/// `line` without the carriage return that ends it, if one does.
pub open spec fn strip_cr(line: Seq<char>) -> Seq<char> {
    if line.len() > 0 && line.last() == '\r' {
        line.drop_last()
    } else {
        line
    }
}

/// The lines of `s` when the line `cur` was begun before it, cut as std's
/// `str::lines` cuts them: at each `\n`, a `\r` just before it dropped;
/// an empty last line after a final `\n` is no line.
pub open spec fn lines_from(s: Seq<char>, cur: Seq<char>) -> Seq<Seq<char>>
    decreases s.len(),
{
    if s.len() == 0 {
        if cur.len() == 0 {
            Seq::empty()
        } else {
            seq![cur]
        }
    } else if s[0] == '\n' {
        seq![strip_cr(cur)] + lines_from(s.drop_first(), Seq::empty())
    } else {
        lines_from(s.drop_first(), cur.push(s[0]))
    }
}

/// The lines of `s`, as std's `str::lines` gives them.
pub open spec fn text_lines(s: Seq<char>) -> Seq<Seq<char>> {
    lines_from(s, Seq::empty())
}

/// The text of `cs[from..to]`.
fn chars_text(cs: &[char], from: usize, to: usize) -> (s: String)
    requires
        from <= to <= cs@.len(),
    ensures
        s@ == cs@.subrange(from as int, to as int),
{
    let mut s = String::new();
    let mut i = from;
    while i < to
        invariant
            from <= i <= to <= cs@.len(),
            s@ == cs@.subrange(from as int, i as int),
        decreases to - i,
    {
        push_char(&mut s, cs[i]);
        i = i + 1;
        assert(s@ =~= cs@.subrange(from as int, i as int));
    }
    s
}

/// The name and the value of an option line `name=value`, cut at its first
/// `=`; nothing when the line holds no `=`.
fn split_option_line(line: &[char]) -> (r: Option<(String, String)>)
    ensures
        r is None <==> !line@.contains('='),
        r matches Some(p) ==> p.0@ + seq!['='] + p.1@ == line@ && !p.0@.contains('='),
{
    let mut k: usize = 0;
    while k < line.len()
        invariant
            k <= line@.len(),
            forall|j: int| 0 <= j < k ==> line@[j] != '=',
        decreases line@.len() - k,
    {
        if line[k] == '=' {
            let name = chars_text(line, 0, k);
            let value = chars_text(line, k + 1, line.len());
            assert(name@ + seq!['='] + value@ =~= line@);
            assert(!name@.contains('=')) by {
                if name@.contains('=') {
                    let j = choose|j: int| 0 <= j < name@.len() && name@[j] == '=';
                    assert(line@[j] == '=');
                }
            }
            return Some((name, value));
        }
        k = k + 1;
    }
    None
}

/// Reads the output of the option command: each of its lines (cut as
/// `str::lines` cuts them) is an option `name=value`, cut at the first `=`.
/// A line without `=` refuses the whole output.
pub fn parse_command_options(output: &str) -> (r: Result<Vec<(String, String)>, EncoderError>)
    ensures
        r is Err <==> exists|i: int|
            0 <= i < text_lines(output@).len() && !(#[trigger] text_lines(output@)[i]).contains('='),
        r matches Err(e) ==> e == EncoderError::MissingOptionValue,
        r matches Ok(v) ==> {
            &&& v@.len() == text_lines(output@).len()
            &&& forall|i: int|
                0 <= i < v@.len() ==> (#[trigger] v@[i]).0@ + seq!['='] + v@[i].1@ == text_lines(
                    output@,
                )[i] && !v@[i].0@.contains('=')
        },
{
    let cs = text_chars(output);
    let ghost s = output@;
    let ghost mut done: Seq<Seq<char>> = Seq::empty();
    let mut out: Vec<(String, String)> = Vec::new();
    let mut cur: Vec<char> = Vec::new();
    let mut i: usize = 0;
    assert(s.skip(0) =~= s);
    assert(done + lines_from(s.skip(0), cur@) =~= lines_from(s, Seq::empty()));
    while i < cs.len()
        invariant
            cs@ == s,
            s == output@,
            i <= s.len(),
            text_lines(s) == done + lines_from(s.skip(i as int), cur@),
            out@.len() == done.len(),
            forall|j: int|
                0 <= j < out@.len() ==> (#[trigger] out@[j]).0@ + seq!['='] + out@[j].1@ == done[j]
                    && !out@[j].0@.contains('='),
        decreases s.len() - i,
    {
        let c = cs[i];
        assert(s.skip(i as int).drop_first() =~= s.skip(i + 1));
        if c == '\n' {
            let ghost line = strip_cr(cur@);
            if cur.len() > 0 && cur[cur.len() - 1] == '\r' {
                cur.pop();
            }
            assert(cur@ == line);
            match split_option_line(cur.as_slice()) {
                None => {
                    assert(text_lines(s)[done.len() as int] == line);
                    return Err(EncoderError::MissingOptionValue);
                },
                Some(p) => {
                    out.push(p);
                    proof {
                        done = done.push(line);
                    }
                    cur = Vec::new();
                },
            }
        } else {
            cur.push(c);
        }
        i = i + 1;
    }
    assert(s.skip(i as int) =~= Seq::<char>::empty());
    if cur.len() > 0 {
        match split_option_line(cur.as_slice()) {
            None => {
                assert(text_lines(s)[done.len() as int] == cur@);
                return Err(EncoderError::MissingOptionValue);
            },
            Some(p) => {
                out.push(p);
                proof {
                    done = done.push(cur@);
                }
            },
        }
    }
    assert(text_lines(s) =~= done);
    assert forall|j: int| 0 <= j < text_lines(s).len() implies (#[trigger] text_lines(s)[j]).contains('=') by {
        let k = out@[j].0@.len() as int;
        assert(text_lines(s)[j][k] == '=');
    }
    Ok(out)
}

} // verus!
