use sanzu::frame_chunks::{put_image_chunks, ImageChunk};

#[test]
fn small_image_in_one_request() {
    assert_eq!(
        put_image_chunks(100, 5, 5, 0x40000),
        vec![ImageChunk { first_line: 0, lines: 5, start: 0, end: 100 }]
    );
}

#[test]
fn large_image_in_bands_of_whole_lines() {
    // 262144 - 28 rounded down to 64 KiB leaves 196608 bytes: 491 lines of 400.
    let chunks = put_image_chunks(400_000, 100, 1000, 0x40000);
    assert_eq!(
        chunks,
        vec![
            ImageChunk { first_line: 0, lines: 491, start: 0, end: 196_400 },
            ImageChunk { first_line: 491, lines: 491, start: 196_400, end: 392_800 },
            ImageChunk { first_line: 982, lines: 18, start: 392_800, end: 400_000 },
        ]
    );
}

#[test]
fn exact_multiple_of_band() {
    let chunks = put_image_chunks(0x10000 * 2, 0x4000, 2, 0x10000 + 28);
    assert_eq!(
        chunks,
        vec![
            ImageChunk { first_line: 0, lines: 1, start: 0, end: 0x10000 },
            ImageChunk { first_line: 1, lines: 1, start: 0x10000, end: 0x20000 },
        ]
    );
}

#[test]
fn empty_image_at_the_limit_has_no_band() {
    assert!(put_image_chunks(0x10000, 10, 0, 0x10000 + 28).is_empty());
}
