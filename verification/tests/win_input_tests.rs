use sanzu::win_input::{
    keyboard_input, mouse_button_input, KEYEVENTF_EXTENDEDKEY, KEYEVENTF_KEYUP,
    KEYEVENTF_SCANCODE, MOUSEEVENTF_LEFTDOWN, MOUSEEVENTF_LEFTUP, MOUSEEVENTF_MIDDLEDOWN,
    MOUSEEVENTF_RIGHTUP, MOUSEEVENTF_WHEEL,
};

#[test]
fn mouse_buttons() {
    assert_eq!(mouse_button_input(1, true), (MOUSEEVENTF_LEFTDOWN, 1));
    assert_eq!(mouse_button_input(1, false), (MOUSEEVENTF_LEFTUP, 1));
    assert_eq!(mouse_button_input(2, true), (MOUSEEVENTF_MIDDLEDOWN, 2));
    assert_eq!(mouse_button_input(3, false), (MOUSEEVENTF_RIGHTUP, 3));
    assert_eq!(mouse_button_input(4, true), (MOUSEEVENTF_WHEEL, 40));
    assert_eq!(mouse_button_input(5, false), (MOUSEEVENTF_WHEEL, -40i32 as u32));
    assert_eq!(mouse_button_input(9, true), (0, 9));
}

#[test]
fn keys() {
    // Esc
    assert_eq!(keyboard_input(0x09, true), Some((0x01, KEYEVENTF_SCANCODE)));
    assert_eq!(keyboard_input(0x09, false), Some((0x01, KEYEVENTF_SCANCODE | KEYEVENTF_KEYUP)));
    assert_eq!(keyboard_input(0, true), None);
    // an extended key keeps its flag
    let mut found_extended = false;
    for hw in 0u32..0x200 {
        if let Some((_, flags)) = keyboard_input(hw, true) {
            if flags & KEYEVENTF_EXTENDEDKEY != 0 {
                found_extended = true;
                assert_eq!(flags, KEYEVENTF_SCANCODE | KEYEVENTF_EXTENDEDKEY);
            }
        }
    }
    assert!(found_extended);
}
