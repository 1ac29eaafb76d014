use std::time::Duration;
use sanzu::keyed::KeyedList;
use sanzu::video_decoder::{
    decode_packet, decode_report, decoded_frame_to_rgba, ReceiveStatus, frame_pixel_format, init_video_codec, Decoder, DecoderBuilder,
    DecoderChoice, DecoderFFmpeg, DecoderNull, FramePixelFormat,
};
use sanzu::video_encoder::{
    copy_rgb0_plane, get_encoder_category, init_video_encoder, parse_command_options, round_size_up, Encoder,
    EncoderBuilder, EncoderChoice, EncoderError, EncoderFFmpeg, EncoderNull, EncoderPixelFormat,
    FramePlanes,
};

#[test]
fn round_size_up_to_64() {
    assert_eq!(round_size_up(0), 0);
    assert_eq!(round_size_up(1), 64);
    assert_eq!(round_size_up(64), 64);
    assert_eq!(round_size_up(65), 128);
    assert_eq!(round_size_up(1080), 1088);
    assert_eq!(round_size_up(1920), 1920);
}

#[test]
fn encoder_categories() {
    for name in ["libx264", "h264_nvenc", "h264_qsv", "h264_v4l2m2m"] {
        assert_eq!(get_encoder_category(name), Ok("h264".to_owned()));
    }
    for name in ["libx265", "hevc_nvenc", "hevc_qsv"] {
        assert_eq!(get_encoder_category(name), Ok("hevc".to_owned()));
    }
    assert_eq!(get_encoder_category("null"), Ok("null".to_owned()));
    assert_eq!(
        get_encoder_category("libvpx"),
        Err(EncoderError::UnknownCategory("libvpx".to_owned()))
    );
    assert_eq!(get_encoder_category(""), Err(EncoderError::UnknownCategory(String::new())));
}

#[test]
fn null_encoder_passes_frames_through() {
    let mut enc = EncoderNull::new();
    assert!(enc.is_raw());
    assert!(!enc.has_ssse3());
    assert_eq!(enc.name(), "");
    assert_eq!(enc.framerate(), (0, 0));
    let (out, timings) = enc.encode_image(&[1, 2, 3, 4], 1, 1, 4, 0).ok().unwrap();
    assert_eq!(out, vec![1, 2, 3, 4]);
    assert!(timings.times.is_empty());
}

fn opts(pairs: &[(&str, &str)]) -> KeyedList<String> {
    let mut m = KeyedList::new();
    for (k, v) in pairs {
        m.insert(k.to_string(), v.to_string());
    }
    m
}

#[test]
fn encoder_builder_keeps_options() {
    let mut b = EncoderBuilder::new("libx264");
    assert_eq!(b.name(), "libx264");
    assert_eq!(b.framerate(), (25, 1));
    assert_eq!(b.command(), None);
    b.set_option("preset", "fast");
    b.set_option("preset", "slow");
    b.set_framerate(30, 1);
    b.set_command("/bin/opts");
    assert_eq!(b.options().len(), 1);
    assert_eq!(b.options().get("preset").map(|s| s.as_str()), Some("slow"));
    assert_eq!(b.framerate(), (30, 1));
    assert_eq!(b.command(), Some("/bin/opts".to_owned()));
}

#[test]
fn init_video_encoder_null() {
    assert!(matches!(init_video_encoder("null", None, None, &None, (640, 480)), EncoderChoice::Null(_)));
}

#[test]
fn init_video_encoder_merges_options() {
    let global = opts(&[("b", "2000000"), ("preset", "medium")]);
    let codec = opts(&[("preset", "fast")]);
    let command = Some("/bin/opts".to_owned());
    match init_video_encoder("libx264", Some(&global), Some(&codec), &command, (1920, 1080)) {
        EncoderChoice::FFmpeg(b) => {
            assert_eq!(b.name(), "libx264");
            assert_eq!(b.options().len(), 2);
            assert_eq!(b.options().get("b").map(|s| s.as_str()), Some("2000000"));
            assert_eq!(b.options().get("preset").map(|s| s.as_str()), Some("fast"));
            assert_eq!(b.options().get("video_size"), None);
            assert_eq!(b.framerate(), (25, 1));
            assert_eq!(b.command(), command);
        }
        EncoderChoice::Null(_) => panic!("expected an FFmpeg encoder"),
    }
}

#[test]
fn encoder_reload_keeps_size_among_options() {
    let b = EncoderBuilder::new("libx264");
    let mut e = EncoderFFmpeg::new(b, 100, 50);
    assert_eq!(e.size, (128, 64));
    assert_eq!(e.image_y.len(), 128 * 64);
    let r = e.reload();
    assert_eq!(r.options().get("video_size").map(|s| s.as_str()), Some("128x64"));
    let r = e.change_resolution(1281, 721);
    assert_eq!(e.size, (1280, 720));
    assert_eq!(r.options().get("video_size").map(|s| s.as_str()), Some("1280x720"));
    assert_eq!(r.name(), "libx264");
}

#[test]
fn rgb0_lines_are_copied() {
    // longer plane lines than image lines
    let image = [1u8, 2, 3, 4, 5, 6];
    let mut plane = [0u8; 8];
    copy_rgb0_plane(&image, 3, 2, &mut plane, 4);
    assert_eq!(plane, [1, 2, 3, 0, 4, 5, 6, 0]);
    // shorter plane lines than image lines
    let mut plane = [0u8; 4];
    copy_rgb0_plane(&image, 3, 2, &mut plane, 2);
    assert_eq!(plane, [1, 2, 4, 5]);
    // same line length
    let mut plane = [0u8; 6];
    copy_rgb0_plane(&image, 3, 2, &mut plane, 3);
    assert_eq!(plane, image);
}

#[test]
fn fill_frame_yuv420() {
    let mut e = EncoderFFmpeg::new(EncoderBuilder::new("libx264"), 2, 2);
    let img = [200u8, 100, 50, 255, 10, 20, 30, 255, 90, 180, 250, 255, 0, 0, 0, 255];
    let mut frame = FramePlanes { plane0: vec![0; 4], plane1: vec![0; 1], plane2: vec![0; 1] };
    let res = e.fill_frame(EncoderPixelFormat::Yuv420p, &img, 2, 2, 8, (2, 1, 1), &mut frame);
    assert_eq!(res, Ok(()));
    assert_eq!(frame.plane0, vec![124, 18, 160, 0]);
    assert_eq!(frame.plane1, vec![131]);
    assert_eq!(frame.plane2, vec![127]);
}

#[test]
fn fill_frame_rgb0_and_unsupported() {
    let mut e = EncoderFFmpeg::new(EncoderBuilder::new("libx264rgb"), 2, 1);
    let img = [1u8, 2, 3, 4, 5, 6, 7, 8];
    let mut frame = FramePlanes { plane0: vec![0; 8], plane1: vec![], plane2: vec![] };
    assert_eq!(e.fill_frame(EncoderPixelFormat::Rgb0, &img, 2, 1, 8, (8, 0, 0), &mut frame), Ok(()));
    assert_eq!(frame.plane0, img.to_vec());
    assert_eq!(
        e.fill_frame(EncoderPixelFormat::Other(3), &img, 2, 1, 8, (8, 0, 0), &mut frame),
        Err(EncoderError::UnsupportedPixelFormat(3))
    );
}

#[test]
fn pixel_format_numbers() {
    assert_eq!(frame_pixel_format(0), Some(FramePixelFormat::Yuv420p));
    assert_eq!(frame_pixel_format(5), Some(FramePixelFormat::Yuv444p));
    assert_eq!(frame_pixel_format(23), Some(FramePixelFormat::Nv12));
    assert_eq!(frame_pixel_format(1), None);
}

#[test]
fn init_video_codec_null_and_ffmpeg() {
    match init_video_codec(None, "null") {
        DecoderChoice::Null(d) => {
            assert!(d.data_rgba.is_none());
            assert_eq!(d.name(), "null");
        }
        DecoderChoice::FFmpeg(_) => panic!("expected the null decoder"),
    }
    let o = opts(&[("threads", "4")]);
    match init_video_codec(Some(&o), "h264") {
        DecoderChoice::FFmpeg(b) => {
            assert_eq!(b.name(), "h264");
            assert_eq!(b.options().get("threads").map(|s| s.as_str()), Some("4"));
            let d = DecoderFFmpeg::new(b);
            let again = d.reload();
            assert_eq!(again.name(), "h264");
            assert_eq!(again.options().len(), 1);
        }
        DecoderChoice::Null(_) => panic!("expected an FFmpeg decoder"),
    }
    let mut b = DecoderBuilder::new("hevc");
    b.set_option("a", "1");
    assert_eq!(b.options().len(), 1);
}

#[test]
fn null_decoder_copies_lines() {
    let mut d = DecoderNull::new();
    // 1x2 image, 6 bytes per source line
    let data = [1u8, 2, 3, 4, 0, 0, 5, 6, 7, 8, 0, 0];
    let (updated, timings) = d.decode_img(&data, 1, 2, Some(6));
    assert!(updated.is_some());
    let timings = timings.unwrap();
    assert_eq!(timings.times.len(), 1);
    assert_eq!(timings.times[0].0, "copy");
    assert_eq!(d.data_rgba.as_ref().unwrap(), &vec![1, 2, 3, 4, 5, 6, 7, 8]);
    assert_eq!(d.data_rgb.as_ref().unwrap().len(), 6);
    assert!(d.reload().data_rgba.is_none());
}

#[test]
fn null_decoder_without_line_length_does_nothing() {
    let mut d = DecoderNull::new();
    let (updated, timings) = d.decode_img(&[1, 2, 3, 4], 1, 1, None);
    assert!(updated.is_none() && timings.is_none());
    assert!(d.data_rgba.is_none());
}

#[test]
fn decoded_yuv444_frame_is_converted() {
    let mut rgba = None;
    let mut rgb = None;
    decoded_frame_to_rgba(
        FramePixelFormat::Yuv444p,
        (2, 2, 2),
        1,
        &[76, 149],
        &[128, 100],
        &[128, 200],
        2,
        1,
        &mut rgba,
        &mut rgb,
    );
    assert_eq!(rgba.unwrap(), vec![76, 76, 76, 0, 250, 108, 99, 0]);
    assert_eq!(rgb.unwrap().len(), 6);
}

#[test]
fn decoder_ffmpeg_refuses_unknown_formats() {
    let mut d = DecoderFFmpeg::new(DecoderBuilder::new("h264"));
    let f = d.receive_frame(3, (2, 2, 2), 1, &[76, 149], &[128, 100], &[128, 200], 2, 1);
    assert_eq!(f, None);
    assert!(d.data_rgba.is_none());
    let f = d.receive_frame(5, (2, 2, 2), 1, &[76, 149], &[128, 100], &[128, 200], 2, 1);
    assert_eq!(f, Some(FramePixelFormat::Yuv444p));
    assert_eq!(d.data_rgba.unwrap(), vec![76, 76, 76, 0, 250, 108, 99, 0]);
}

#[test]
fn hot_restart_asks_rounded_size() {
    let e = EncoderFFmpeg::new(EncoderBuilder::new("libx264"), 1920, 1080);
    assert_eq!(e.size, (1920, 1088));
    assert_eq!(e.image_y.len(), 1920 * 1088);
    assert_eq!(e.reload().options().get("video_size").map(|s| s.as_str()), Some("1920x1088"));
}

#[test]
fn command_options_one_per_line() {
    let opts = parse_command_options("preset=ultrafast\r\ncrf=23\nx264-params=keyint=60\n").unwrap();
    assert_eq!(
        opts,
        vec![
            ("preset".to_owned(), "ultrafast".to_owned()),
            ("crf".to_owned(), "23".to_owned()),
            ("x264-params".to_owned(), "keyint=60".to_owned()),
        ]
    );
}

#[test]
fn command_options_empty_value_and_no_output() {
    assert_eq!(parse_command_options(""), Ok(vec![]));
    assert_eq!(
        parse_command_options("tune="),
        Ok(vec![("tune".to_owned(), String::new())])
    );
}

#[test]
fn command_options_line_without_equal_sign() {
    assert_eq!(parse_command_options("a=1\nbad\nc=3"), Err(EncoderError::MissingOptionValue));
    assert_eq!(parse_command_options("a=1\n\n"), Err(EncoderError::MissingOptionValue));
}

#[test]
fn decode_report_names_dec_and_yuv() {
    let (updated, timings) = decode_report(true, Duration::from_millis(3), Duration::from_millis(5));
    assert_eq!(updated, Some(()));
    let times = timings.unwrap().times;
    assert_eq!(times, vec![("dec", Duration::from_millis(3)), ("yuv", Duration::from_millis(5))]);
    let (updated, timings) = decode_report(false, Duration::ZERO, Duration::ZERO);
    assert_eq!(updated, None);
    assert_eq!(timings.unwrap().times.len(), 2);
}

#[test]
fn null_codecs_have_no_options() {
    assert_eq!(Decoder::options(&DecoderNull::new()).len(), 0);
    assert_eq!(Encoder::options(&EncoderNull::new()).len(), 0);
}

#[test]
fn decode_packet_takes_frames_until_done() {
    let (dec, yuv) = (Duration::from_millis(2), Duration::from_millis(4));
    let (updated, timings, frames) =
        decode_packet(&[ReceiveStatus::Frame, ReceiveStatus::Frame, ReceiveStatus::Done, ReceiveStatus::Frame], dec, yuv);
    assert_eq!((updated, frames), (Some(()), 2));
    assert_eq!(timings.unwrap().times, vec![("dec", dec), ("yuv", yuv)]);
    let (updated, timings, frames) = decode_packet(&[ReceiveStatus::Done, ReceiveStatus::Frame], dec, yuv);
    assert_eq!((updated, frames), (None, 0));
    assert_eq!(timings.unwrap().times.len(), 2);
}
