use sanzu::yuv::{
    get_rgb_to_yuv_param, get_yuv_to_rgb_param, nv12_rgba_std, rgb24_yuv420_std,
    rgba_to_nv12_std, rgba_to_yuv420_std, rgba_to_yuv444_std, yuv420_to_rgba_std,
    yuv444_to_rgba_std, YuvType,
};

fn fixed_point(value: f32, precision: u32) -> u8 {
    ((value * ((1 << precision) as f32)) + 0.5) as u8
}

fn float_rgb_to_yuv(rf: f32, bf: f32, ymin: f32, ymax: f32, range: f32) -> [u8; 7] {
    [
        fixed_point(rf, 8),
        255 - fixed_point(rf, 8) - fixed_point(bf, 8) + 1,
        fixed_point(bf, 8),
        fixed_point((range / 255.0) / (2.0 * (1.0 - bf)), 8),
        fixed_point((range / 255.0) / (2.0 * (1.0 - rf)), 8),
        fixed_point((ymax - ymin) / 255.0, 7),
        ymin as u8,
    ]
}

fn float_yuv_to_rgb(rf: f32, bf: f32, ymin: f32, ymax: f32, range: f32) -> [u8; 6] {
    [
        fixed_point(255.0 * (2.0 * (1.0 - bf)) / range, 6),
        fixed_point(255.0 * (2.0 * (1.0 - rf)) / range, 6),
        fixed_point(bf / (1.0 - bf - rf) * 255.0 * (2.0 * (1.0 - bf)) / range, 7),
        fixed_point(rf / (1.0 - bf - rf) * 255.0 * (2.0 * (1.0 - rf)) / range, 7),
        fixed_point(255.0 / (ymax - ymin), 7),
        ymin as u8,
    ]
}

#[test]
fn param_tables_match_the_float_formulas() {
    let cases = [
        (YuvType::ItuT871, (0.299f32, 0.114f32, 0.0f32, 255.0f32, 255.0f32)),
        (YuvType::ItuR601, (0.299, 0.114, 16.0, 235.0, 224.0)),
        (YuvType::ItuR709, (0.2126, 0.0722, 16.0, 235.0, 224.0)),
    ];
    for (t, (rf, bf, ymin, ymax, range)) in cases {
        let p = get_rgb_to_yuv_param(t);
        let table = [
            p.r_factor,
            p.g_factor,
            p.b_factor,
            p.cb_factor,
            p.cr_factor,
            p.y_factor,
            p.y_offset,
        ];
        assert_eq!(table, float_rgb_to_yuv(rf, bf, ymin, ymax, range));
        let q = get_yuv_to_rgb_param(t);
        let table = [q.cb_factor, q.cr_factor, q.g_cb_factor, q.g_cr_factor, q.y_factor, q.y_offset];
        assert_eq!(table, float_yuv_to_rgb(rf, bf, ymin, ymax, range));
    }
}

#[test]
fn luma_weights_sum_to_one() {
    for t in [YuvType::ItuT871, YuvType::ItuR601, YuvType::ItuR709] {
        let p = get_rgb_to_yuv_param(t);
        assert_eq!(p.r_factor as u32 + p.g_factor as u32 + p.b_factor as u32, 256);
    }
}

#[test]
fn rgba_to_yuv444_red_and_green() {
    let img = [255u8, 0, 0, 255, 0, 255, 0, 255];
    let (mut y, mut u, mut v) = ([0u8; 2], [0u8; 2], [0u8; 2]);
    rgba_to_yuv444_std(2, 1, &img, 8, &mut y, &mut u, &mut v, 2, 2, 2, YuvType::ItuT871);
    assert_eq!(y, [76, 149]);
    assert_eq!(u, [85, 44]);
    assert_eq!(v, [255, 21]);
}

#[test]
fn rgba_to_yuv444_studio_range() {
    let img = [200u8, 100, 50, 255];
    let (mut y, mut u, mut v) = ([0u8; 1], [0u8; 1], [0u8; 1]);
    rgba_to_yuv444_std(1, 1, &img, 4, &mut y, &mut u, &mut v, 1, 1, 1, YuvType::ItuR601);
    assert_eq!((y[0], u[0], v[0]), (122, 91, 175));
}

#[test]
fn rgba_to_yuv444_leaves_other_bytes() {
    let img = [255u8, 0, 0, 255];
    let (mut y, mut u, mut v) = ([7u8; 3], [7u8; 3], [7u8; 3]);
    rgba_to_yuv444_std(1, 1, &img, 4, &mut y, &mut u, &mut v, 3, 3, 3, YuvType::ItuT871);
    assert_eq!(y, [76, 7, 7]);
    assert_eq!(u, [85, 7, 7]);
    assert_eq!(v, [255, 7, 7]);
}

const BLOCK_RGBA: [u8; 16] = [200, 100, 50, 255, 10, 20, 30, 255, 90, 180, 250, 255, 0, 0, 0, 255];

#[test]
fn rgba_to_yuv420_block() {
    let (mut y, mut u, mut v) = ([0u8; 4], [0u8; 1], [0u8; 1]);
    rgba_to_yuv420_std(2, 2, &BLOCK_RGBA, 8, &mut y, &mut u, &mut v, 2, 1, 1, YuvType::ItuT871);
    assert_eq!(y, [124, 18, 160, 0]);
    assert_eq!((u[0], v[0]), (131, 127));
}

#[test]
fn rgba_to_nv12_block() {
    let (mut y, mut uv) = ([0u8; 4], [0u8; 2]);
    rgba_to_nv12_std(2, 2, &BLOCK_RGBA, 8, &mut y, &mut uv, 2, 2, YuvType::ItuT871);
    assert_eq!(y, [124, 18, 160, 0]);
    assert_eq!(uv, [131, 127]);
}

#[test]
fn rgb24_to_yuv420_block() {
    let rgb = [200u8, 100, 50, 10, 20, 30, 90, 180, 250, 0, 0, 0];
    let (mut y, mut u, mut v) = ([0u8; 4], [0u8; 1], [0u8; 1]);
    rgb24_yuv420_std(2, 2, &rgb, 6, &mut y, &mut u, &mut v, 2, 1, 1, YuvType::ItuT871);
    assert_eq!(y, [124, 18, 160, 0]);
    assert_eq!((u[0], v[0]), (131, 127));
}

#[test]
fn yuv420_odd_sizes_skip_the_last_line_and_column() {
    let img = [255u8; 3 * 3 * 4];
    let (mut y, mut u, mut v) = ([9u8; 9], [9u8; 1], [9u8; 1]);
    rgba_to_yuv420_std(3, 3, &img, 12, &mut y, &mut u, &mut v, 3, 1, 1, YuvType::ItuT871);
    assert_eq!(y, [255, 255, 9, 255, 255, 9, 9, 9, 9]);
}

#[test]
fn yuv420_to_rgba_block() {
    let y = [76u8, 149, 29, 255];
    let mut out = [9u8; 16];
    yuv420_to_rgba_std(2, 2, &y, &[100], &[200], 2, 1, 1, &mut out, 8, YuvType::ItuT871);
    assert_eq!(out, [177, 35, 26, 9, 250, 108, 99, 9, 130, 0, 0, 9, 255, 214, 205, 9]);
}

#[test]
fn nv12_to_rgba_block() {
    let y = [76u8, 149, 29, 255];
    let mut out = [9u8; 16];
    nv12_rgba_std(2, 2, &y, &[100, 200], 2, 2, &mut out, 8, YuvType::ItuT871);
    assert_eq!(out, [177, 35, 26, 9, 250, 108, 99, 9, 130, 0, 0, 9, 255, 214, 205, 9]);
}

#[test]
fn yuv444_to_rgba_pixels() {
    let mut out = [9u8; 8];
    yuv444_to_rgba_std(2, 1, &[76, 149], &[128, 100], &[128, 200], 2, 2, 2, &mut out, 8, YuvType::ItuT871);
    assert_eq!(out, [76, 76, 76, 9, 250, 108, 99, 9]);
}

#[test]
fn yuv444_to_rgba_studio_range_clamps() {
    let mut out = [0u8; 4];
    yuv444_to_rgba_std(1, 1, &[235], &[128], &[128], 1, 1, 1, &mut out, 4, YuvType::ItuR601);
    assert_eq!(&out[0..3], &[254, 254, 254]);
    yuv444_to_rgba_std(1, 1, &[16], &[128], &[128], 1, 1, 1, &mut out, 4, YuvType::ItuR601);
    assert_eq!(&out[0..3], &[0, 0, 0]);
}

#[test]
fn magenta_v_uses_red_factor() {
    let img = [255u8, 0, 255, 255];
    let (mut y, mut u, mut v) = ([0u8; 1], [0u8; 1], [0u8; 1]);
    rgba_to_yuv444_std(1, 1, &img, 4, &mut y, &mut u, &mut v, 1, 1, 1, YuvType::ItuT871);
    assert_eq!((y[0], u[0], v[0]), (105, 212, 235));
}

#[test]
fn red_block_signed_differences() {
    let img = [255u8, 0, 0, 255].repeat(4);
    let (mut y, mut u, mut v) = ([0u8; 4], [0u8; 1], [0u8; 1]);
    rgba_to_yuv420_std(2, 2, &img, 8, &mut y, &mut u, &mut v, 2, 1, 1, YuvType::ItuT871);
    assert_eq!(y, [76, 76, 76, 76]);
    assert_eq!((u[0], v[0]), (85, 255));
}

#[test]
fn gray_image_nv12_round_trip() {
    let (w, h) = (4usize, 2usize);
    let levels = [0u8, 17, 128, 255, 3, 90, 200, 64];
    let mut img = Vec::new();
    for (k, g) in levels.iter().enumerate() {
        img.extend_from_slice(&[*g, *g, *g, k as u8]);
    }
    let mut y = vec![0u8; w * h];
    let mut uv = vec![0u8; w * h / 2];
    rgba_to_nv12_std(w, h, &img, 4 * w, &mut y, &mut uv, w, w, YuvType::ItuT871);
    assert_eq!(y, levels.to_vec());
    assert_eq!(uv, vec![128u8; w * h / 2]);
    let mut out = vec![9u8; 4 * w * h];
    nv12_rgba_std(w, h, &y, &uv, w, w, &mut out, 4 * w, YuvType::ItuT871);
    for k in 0..w * h {
        assert_eq!(&out[4 * k..4 * k + 3], &img[4 * k..4 * k + 3]);
        assert_eq!(out[4 * k + 3], 9);
    }
}

#[test]
fn empty_images_convert_to_nothing() {
    let mut y: Vec<u8> = vec![];
    let mut uv: Vec<u8> = vec![];
    rgba_to_nv12_std(0, 0, &[], 0, &mut y, &mut uv, 0, 0, YuvType::ItuT871);
    let mut out: Vec<u8> = vec![];
    nv12_rgba_std(0, 0, &y, &uv, 0, 0, &mut out, 0, YuvType::ItuT871);
    let (mut yy, mut u, mut v) = (vec![7u8; 4], vec![7u8; 1], vec![7u8; 1]);
    rgba_to_yuv420_std(1, 0, &[1, 2, 3, 4], 4, &mut yy, &mut u, &mut v, 1, 1, 1, YuvType::ItuT871);
    assert_eq!((yy, u, v), (vec![7u8; 4], vec![7u8], vec![7u8]));
}
