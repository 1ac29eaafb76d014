use sanzu::utils::cursor_bytes;
use sanzu::utils::{log_verbosity, LogVerbosity};
use sanzu::utils::{
    check_cusor_size, check_img_size, get_xwd_data, SizeError, XwdError, MAX_CURSOR_HEIGHT,
    MAX_CURSOR_WIDTH, MAX_WINDOW_HEIGHT, MAX_WINDOW_WIDTH,
};

#[test]
fn image_sizes_within_limits() {
    assert_eq!(check_img_size(1920, 1080), Ok((1920, 1080)));
    assert_eq!(check_img_size(MAX_WINDOW_WIDTH, MAX_WINDOW_HEIGHT), Ok((MAX_WINDOW_WIDTH, MAX_WINDOW_HEIGHT)));
}

#[test]
fn image_too_big() {
    assert_eq!(check_img_size(MAX_WINDOW_WIDTH + 1, 10), Err(SizeError::ImageTooBig(MAX_WINDOW_WIDTH + 1, 10)));
    assert_eq!(check_img_size(10, MAX_WINDOW_HEIGHT + 1), Err(SizeError::ImageTooBig(10, MAX_WINDOW_HEIGHT + 1)));
}

#[test]
fn cursor_sizes() {
    assert_eq!(check_cusor_size(32, 32, 4, 4), Ok((32, 32, 4, 4)));
    assert_eq!(
        check_cusor_size(32, 32, MAX_CURSOR_WIDTH + 1, 0),
        Err(SizeError::CursorTooBig(32, 32, MAX_CURSOR_WIDTH + 1, 0))
    );
    assert_eq!(
        check_cusor_size(32, MAX_CURSOR_HEIGHT + 1, 0, 0),
        Err(SizeError::CursorTooBig(32, MAX_CURSOR_HEIGHT + 1, 0, 0))
    );
}

fn xwd(header_size: u32, ncolors: u32, bpl: u32, width: u32, height: u32, total: usize) -> Vec<u8> {
    let mut d = vec![0u8; total];
    let mut put = |word: usize, v: u32| d[4 * word..4 * word + 4].copy_from_slice(&v.to_be_bytes());
    put(0, header_size);
    put(19, ncolors);
    put(12, bpl);
    put(20, width);
    put(21, height);
    d
}

#[test]
fn xwd_pixels_follow_header_and_colormap() {
    let mut d = xwd(100, 2, 8, 2, 3, 0x100);
    for (i, b) in d.iter_mut().enumerate().skip(124).take(24) {
        *b = i as u8;
    }
    let (pixels, w, h, bpl) = get_xwd_data(&d).unwrap();
    assert_eq!((w, h, bpl), (2, 3, 8));
    assert_eq!(pixels.len(), 24);
    assert_eq!(pixels[0], 124);
    assert_eq!(pixels[23], 147);
}

#[test]
fn xwd_fields_are_checked_in_order() {
    assert_eq!(get_xwd_data(&xwd(0x101, 0x101, 0, 0, 0, 0x100)).unwrap_err(), XwdError::HeaderSize(0x101));
    assert_eq!(get_xwd_data(&xwd(0x100, 0x101, 0, 0, 0, 0x100)).unwrap_err(), XwdError::NColors(0x101));
    assert_eq!(get_xwd_data(&xwd(0, 0, 40000, 0, 0, 0x100)).unwrap_err(), XwdError::BytesPerLine(40000));
    assert_eq!(get_xwd_data(&xwd(0, 0, 0, 9000, 9000, 0x100)).unwrap_err(), XwdError::WindowWidth(9000));
    assert_eq!(get_xwd_data(&xwd(0, 0, 0, 0, 9000, 0x100)).unwrap_err(), XwdError::WindowHeight(9000));
}

#[test]
fn verbosity_levels() {
    assert_eq!(log_verbosity(0), LogVerbosity::Default);
    assert_eq!(log_verbosity(1), LogVerbosity::Warn);
    assert_eq!(log_verbosity(2), LogVerbosity::Info);
    assert_eq!(log_verbosity(3), LogVerbosity::Debug);
    assert_eq!(log_verbosity(4), LogVerbosity::Trace);
    assert_eq!(log_verbosity(255), LogVerbosity::Trace);
}

#[test]
fn cursor_pixels_little_endian() {
    assert_eq!(cursor_bytes(&[0x11223344, 0xff000080]), vec![0x44, 0x33, 0x22, 0x11, 0x80, 0x00, 0x00, 0xff]);
    assert!(cursor_bytes(&[]).is_empty());
}
