use sanzu::keycodes::{hardware_keycode_to_windows_scancode, windows_scancode_to_hardware_keycode};

#[test]
fn escape_round_trip() {
    assert_eq!(hardware_keycode_to_windows_scancode(0x09), Some((0x01, false)));
    assert_eq!(windows_scancode_to_hardware_keycode(0x01, 0), Some(0x09));
}

#[test]
fn digits_map_to_scancodes() {
    assert_eq!(hardware_keycode_to_windows_scancode(0x0A), Some((0x02, false)));
    assert_eq!(hardware_keycode_to_windows_scancode(0x13), Some((0x0b, false)));
}

#[test]
fn numpad_scancodes_without_extended_flag() {
    assert_eq!(windows_scancode_to_hardware_keycode(0x52, 0), Some(0x5a));
    assert_eq!(windows_scancode_to_hardware_keycode(0x47, 0), Some(0x4f));
    assert_eq!(windows_scancode_to_hardware_keycode(0x45, 0), Some(0x7f));
}

#[test]
fn unknown_codes_give_nothing() {
    assert_eq!(hardware_keycode_to_windows_scancode(0), None);
    assert_eq!(hardware_keycode_to_windows_scancode(0x1000), None);
    assert_eq!(windows_scancode_to_hardware_keycode(0xff, 0), None);
}

#[test]
fn every_known_keycode_comes_back() {
    for hw in 0u32..0x200 {
        if hw == 0x3e || hw == 0x4d {
            continue;
        }
        if let Some((scancode, extended)) = hardware_keycode_to_windows_scancode(hw) {
            let flags = if extended { 1 } else { 0 };
            assert_eq!(windows_scancode_to_hardware_keycode(scancode as u32, flags), Some(hw as u16), "{hw:#x}");
        }
    }
}

#[test]
fn every_known_scancode_comes_back() {
    for extended in [false, true] {
        for sc in 0u32..0x100 {
            let flags = if extended { 1 } else { 0 };
            if let Some(hw) = windows_scancode_to_hardware_keycode(sc, flags) {
                let skip = if extended {
                    [0x1c, 0x1d, 0x35, 0x36, 0x45, 0x47, 0x5b, 0x5c, 0x5d].contains(&sc)
                } else {
                    sc == 0x45
                };
                if skip {
                    continue;
                }
                assert_eq!(hardware_keycode_to_windows_scancode(hw as u32), Some((sc as u16, extended)), "{sc:#x}");
            }
        }
    }
}
