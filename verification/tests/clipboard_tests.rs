use sanzu::clipboard::{last_clipboard_value, ClipboardEcho};

#[test]
fn own_values_are_not_sent_back() {
    let mut e = ClipboardEcho::new();
    e.set_by_client();
    e.set_by_client();
    assert_eq!(e.skip(), 2);
    assert_eq!(e.on_x11_change("from server"), None);
    // An empty text is not a notice to skip.
    assert_eq!(e.on_x11_change("\0 \n"), None);
    assert_eq!(e.skip(), 1);
    assert_eq!(e.on_x11_change("again"), None);
    assert_eq!(e.skip(), 0);
    assert_eq!(e.on_x11_change("  local copy\0\0"), Some("local copy".to_string()));
}

#[test]
fn x11_text_cut_of_nuls_then_white_space() {
    let mut e = ClipboardEcho::new();
    assert_eq!(e.on_x11_change("\0\u{3000} a b \t\0"), Some("a b".to_string()));
    // A NUL inside white space is kept: NULs are cut first, at the ends only.
    assert_eq!(e.on_x11_change(" \0x"), Some("\0x".to_string()));
}

#[test]
fn windows_values_taken_as_they_are() {
    let mut e = ClipboardEcho::new();
    e.set_by_client();
    assert_eq!(e.on_windows_change("mine".to_string()), None);
    assert_eq!(e.on_windows_change("  yours ".to_string()), Some("  yours ".to_string()));
}

#[test]
fn last_value_wins() {
    assert_eq!(last_clipboard_value(vec![]), None);
    assert_eq!(last_clipboard_value(vec!["a".to_string(), "b".to_string()]), Some("b".to_string()));
}
