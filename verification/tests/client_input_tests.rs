use sanzu::client_input::{
    parse_clipboard_config, Hotkey, KeyboardState, KEY_ALT, KEY_C, KEY_CTRL, KEY_H, KEY_S,
    KEY_SHIFT,
};
use sanzu::utils::ClipboardConfig;

fn hold_combo(k: &mut KeyboardState) {
    for code in [KEY_CTRL, KEY_SHIFT, KEY_ALT] {
        assert_eq!(k.on_key_press(code as u8), Hotkey::NoAction);
    }
}

#[test]
fn plain_keys_trigger_nothing() {
    let mut k = KeyboardState::new(false);
    assert_eq!(k.on_key_press(KEY_S as u8), Hotkey::NoAction);
    assert!(k.is_pressed(KEY_S as u8));
    assert!(!k.display_stats());
    k.on_key_release(KEY_S as u8);
    assert!(!k.is_pressed(KEY_S as u8));
}

#[test]
fn shortcuts() {
    let mut k = KeyboardState::new(false);
    hold_combo(&mut k);
    assert_eq!(k.on_key_press(KEY_S as u8), Hotkey::ToggleStats);
    assert!(k.display_stats());
    assert_eq!(k.on_key_press(KEY_S as u8), Hotkey::ToggleStats);
    assert!(!k.display_stats());
    assert_eq!(k.on_key_press(KEY_H as u8), Hotkey::ToggleGrab);
    assert!(k.grab_keyboard());
    assert_eq!(k.on_key_press(KEY_C as u8), Hotkey::TrigClipboard);
    k.on_key_release(KEY_ALT as u8);
    assert_eq!(k.on_key_press(KEY_S as u8), Hotkey::NoAction);
    assert!(!k.display_stats());
}

#[test]
fn focus_loss_releases_held_keys_in_order() {
    let mut k = KeyboardState::new(true);
    k.on_key_press(200);
    k.on_key_press(10);
    k.on_key_press(255);
    k.on_key_release(200);
    assert_eq!(k.release_all(), vec![10, 255]);
    assert!(!k.is_pressed(10));
    assert_eq!(k.release_all(), Vec::<u8>::new());
}

#[test]
fn clipboard_policies() {
    let mut k = KeyboardState::new(false);
    let mut last = Some("hello".to_owned());
    assert_eq!(k.clipboard_to_send(ClipboardConfig::Deny, &mut last), None);
    assert_eq!(last.as_deref(), Some("hello"));
    assert_eq!(k.clipboard_to_send(ClipboardConfig::Trig, &mut last), None);
    hold_combo(&mut k);
    k.on_key_press(KEY_C as u8);
    assert_eq!(k.clipboard_to_send(ClipboardConfig::Trig, &mut last), Some("hello".to_owned()));
    assert_eq!(k.clipboard_to_send(ClipboardConfig::Trig, &mut last), None);
    assert_eq!(k.clipboard_to_send(ClipboardConfig::Allow, &mut last), Some("hello".to_owned()));
    assert_eq!(last, None);
    assert_eq!(k.clipboard_to_send(ClipboardConfig::Allow, &mut last), None);
}

#[test]
fn clipboard_settings() {
    assert!(matches!(parse_clipboard_config("allow"), Ok(ClipboardConfig::Allow)));
    assert!(matches!(parse_clipboard_config("deny"), Ok(ClipboardConfig::Deny)));
    assert!(matches!(parse_clipboard_config("trig"), Ok(ClipboardConfig::Trig)));
    assert!(parse_clipboard_config("Allow").is_err());
    assert!(parse_clipboard_config("").is_err());
}
