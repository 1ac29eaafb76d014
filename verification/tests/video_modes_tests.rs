use sanzu::video_modes::{find_mode_by_name, find_mode_size, next_video_mode, video_mode_name, VideoModeSwitch};

#[test]
fn mode_names_by_slot() {
    assert_eq!(video_mode_name(0), "video_mode_1");
    assert_eq!(video_mode_name(1), "video_mode_2");
    assert_eq!(video_mode_name(7), "video_mode_2");
}

#[test]
fn modes_alternate() {
    let first = next_video_mode(0);
    assert_eq!(first, VideoModeSwitch { old_index: 0, new_index: 1 });
    let second = next_video_mode(first.new_index);
    assert_eq!(second, VideoModeSwitch { old_index: 1, new_index: 0 });
    assert_eq!(next_video_mode(second.new_index), first);
}

#[test]
fn finds_mode_in_packed_names() {
    let names = b"1920x1080video_mode_1800x600video_mode_2";
    let lens = [9u16, 12, 7, 12];
    assert_eq!(find_mode_by_name(&lens, names, b"video_mode_1"), Some(1));
    assert_eq!(find_mode_by_name(&lens, names, b"video_mode_2"), Some(3));
    assert_eq!(find_mode_by_name(&lens, names, b"800x600"), Some(2));
    assert_eq!(find_mode_by_name(&lens, names, b"video_mode"), None);
    assert_eq!(find_mode_by_name(&[], b"", b"video_mode_1"), None);
}

#[test]
fn first_of_equal_names() {
    let names = b"abab";
    assert_eq!(find_mode_by_name(&[2, 2], names, b"ab"), Some(0));
}

#[test]
fn search_stops_before_a_short_table() {
    // The name is found before the lengths run past the table.
    let names = b"video_mode_1";
    assert_eq!(find_mode_by_name(&[12, 50], names, b"video_mode_1"), Some(0));
}

#[test]
fn size_of_last_mode_with_id() {
    let ids = [10u32, 11, 10];
    let sizes = [(640u16, 480u16), (800, 600), (1024, 768)];
    assert_eq!(find_mode_size(&ids, &sizes, 10), Some((1024, 768)));
    assert_eq!(find_mode_size(&ids, &sizes, 11), Some((800, 600)));
    assert_eq!(find_mode_size(&ids, &sizes, 12), None);
}
