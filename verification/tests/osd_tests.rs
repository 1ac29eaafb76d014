use sanzu::osd::{draw_pixel, fill_rect};

#[test]
fn pixels_inside_only() {
    let mut buf = vec![0u8; 2 * 2 * 4];
    draw_pixel(&mut buf, 2, 2, 1, 1, (1, 2, 3));
    assert_eq!(&buf[12..16], &[1, 2, 3, 0]);
    let copy = buf.clone();
    draw_pixel(&mut buf, 2, 2, -1, 0, (9, 9, 9));
    draw_pixel(&mut buf, 2, 2, 2, 0, (9, 9, 9));
    draw_pixel(&mut buf, 2, 2, 0, 2, (9, 9, 9));
    assert_eq!(buf, copy);
}

#[test]
fn rectangles_are_clipped() {
    let mut buf = vec![0u8; 3 * 2 * 4];
    fill_rect(&mut buf, 3, 2, 1, 0, 10, 10, (5, 6, 7));
    assert_eq!(
        buf,
        vec![0, 0, 0, 0, 5, 6, 7, 0, 5, 6, 7, 0, 0, 0, 0, 0, 5, 6, 7, 0, 5, 6, 7, 0]
    );
}

#[test]
fn rectangles_off_the_image_draw_nothing() {
    let mut buf = vec![0u8; 3 * 2 * 4];
    fill_rect(&mut buf, 3, 2, -1, 0, 3, 3, (5, 6, 7));
    fill_rect(&mut buf, 3, 2, 0, -5, 3, 10, (5, 6, 7));
    fill_rect(&mut buf, 3, 2, 3, 0, 3, 3, (5, 6, 7));
    fill_rect(&mut buf, 3, 2, 0, 2, 3, 3, (5, 6, 7));
    assert!(buf.iter().all(|&b| b == 0));
}

#[test]
fn small_rectangle() {
    let mut buf = vec![0u8; 3 * 3 * 4];
    fill_rect(&mut buf, 3, 3, 1, 1, 1, 1, (1, 1, 1));
    let lit: Vec<usize> = (0..buf.len()).filter(|&k| buf[k] != 0).collect();
    assert_eq!(lit, vec![16, 17, 18]);
}
