use sanzu::win_cursor::windows_cursor;

fn rgba(w: usize, h: usize) -> Vec<u8> {
    (0..w * h).flat_map(|p| [p as u8, 1, 2, 255]).collect()
}

#[test]
fn small_cursor_padded_to_32() {
    let (data, w, h) = windows_cursor(&rgba(4, 4), 4, 4).unwrap();
    assert_eq!((w, h), (32, 32));
    assert_eq!(data.len(), 32 * 32 * 4);
    // First pixel swapped to BGRA, then the row padded.
    assert_eq!(&data[0..4], &[2, 1, 0, 255]);
    assert_eq!(&data[16..128], &[0u8; 112][..]);
    assert_eq!(&data[128..132], &[2, 1, 4, 255]);
    assert!(data[4 * 128..].iter().all(|b| *b == 0));
}

#[test]
fn wide_cursor_made_square() {
    let (data, w, h) = windows_cursor(&rgba(40, 4), 40, 4).unwrap();
    assert_eq!((w, h), (40, 40));
    assert_eq!(data.len(), 40 * 40 * 4);
    assert_eq!(&data[0..4], &[2, 1, 0, 255]);
}

#[test]
fn large_square_cursor_only_swapped() {
    let src = rgba(40, 40);
    let (data, w, h) = windows_cursor(&src, 40, 40).unwrap();
    assert_eq!((w, h), (40, 40));
    assert_eq!(data.len(), src.len());
    assert_eq!(&data[4..8], &[2, 1, 1, 255]);
}

#[test]
fn tall_enough_cursor_keeps_unpadded_pixels() {
    // Rows are padded for a narrow cursor, but a cursor already 32 high
    // takes the unpadded pixels again, under the padded width.
    let (data, w, h) = windows_cursor(&rgba(4, 32), 4, 32).unwrap();
    assert_eq!((w, h), (32, 32));
    assert_eq!(data.len(), 4 * 32 * 4);
}

#[test]
fn tiny_cursor_skipped() {
    assert!(windows_cursor(&rgba(3, 10), 3, 10).is_none());
    assert!(windows_cursor(&rgba(10, 2), 10, 2).is_none());
}
