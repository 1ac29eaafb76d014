use sanzu::config::{Audio, ConfigClient, ConfigServer, Video};
use sanzu::keyed::KeyedList;

fn ffmpeg() -> KeyedList<KeyedList<String>> {
    let mut global = KeyedList::new();
    global.insert("b".to_owned(), "2000000".to_owned());
    let mut x264 = KeyedList::new();
    x264.insert("pixel_format".to_owned(), "yuv444p".to_owned());
    x264.insert("preset".to_owned(), "fast".to_owned());
    x264.insert("tune".to_owned(), "zerolatency".to_owned());
    let mut all = KeyedList::new();
    all.insert("global".to_owned(), global);
    all.insert("libx264".to_owned(), x264);
    all
}

#[test]
fn keyed_list_insert_replaces() {
    let mut m: KeyedList<u32> = KeyedList::new();
    assert_eq!(m.len(), 0);
    m.insert("a".to_owned(), 1);
    m.insert("b".to_owned(), 2);
    m.insert("a".to_owned(), 3);
    assert_eq!(m.len(), 2);
    assert_eq!(m.get("a"), Some(&3));
    assert_eq!(m.get("b"), Some(&2));
    assert_eq!(m.get("c"), None);
    let (k, v) = m.entry(0);
    assert_eq!((k.as_str(), *v), ("a", 3));
}

#[test]
fn keyed_list_set_all_prefers_the_new_values() {
    let mut a: KeyedList<String> = KeyedList::new();
    a.insert("x".to_owned(), "1".to_owned());
    a.insert("y".to_owned(), "2".to_owned());
    let mut b: KeyedList<String> = KeyedList::new();
    b.insert("y".to_owned(), "3".to_owned());
    b.insert("z".to_owned(), "4".to_owned());
    a.set_all(&b);
    assert_eq!(a.len(), 3);
    assert_eq!(a.get("x").map(|s| s.as_str()), Some("1"));
    assert_eq!(a.get("y").map(|s| s.as_str()), Some("3"));
    assert_eq!(a.get("z").map(|s| s.as_str()), Some("4"));
    let c = a.duplicate();
    assert_eq!(c.len(), 3);
    assert_eq!(c.get("y").map(|s| s.as_str()), Some("3"));
}

#[test]
fn server_ffmpeg_options_by_codec() {
    let config = ConfigServer {
        video: Video { max_fps: 60, max_stall_img: 30, ffmpeg_options_cmd: None, control_path: None },
        audio: Audio { max_buffer_ms: 200 },
        export_video_pci: None,
        tls: None,
        auth_type: None,
        ffmpeg: ffmpeg(),
    };
    let global = config.ffmpeg_options(None).unwrap();
    assert_eq!(global.get("b").map(|s| s.as_str()), Some("2000000"));
    let x264 = config.ffmpeg_options(Some("libx264")).unwrap();
    assert_eq!(x264.len(), 3);
    assert_eq!(x264.get("preset").map(|s| s.as_str()), Some("fast"));
    assert!(config.ffmpeg_options(Some("hevc_nvenc")).is_none());
}

#[test]
fn client_ffmpeg_options_by_codec() {
    let config = ConfigClient { ffmpeg: ffmpeg() };
    assert!(config.ffmpeg_options(None).is_some());
    assert_eq!(config.ffmpeg_options(Some("libx264")).unwrap().get("tune").map(|s| s.as_str()), Some("zerolatency"));
    assert!(config.ffmpeg_options(Some("h264")).is_none());
    let empty = ConfigClient { ffmpeg: KeyedList::new() };
    assert!(empty.ffmpeg_options(None).is_none());
}
