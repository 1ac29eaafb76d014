//! The input events that a Windows server injects for the client's mouse
//! buttons and keys.

use crate::keycodes::{hardware_keycode_to_windows_scancode, spec_keycode_to_scancode};
use vstd::prelude::*;

verus! {

/// `MOUSEEVENTF_LEFTDOWN`.
pub const MOUSEEVENTF_LEFTDOWN: u32 = 0x0002;

/// `MOUSEEVENTF_LEFTUP`.
pub const MOUSEEVENTF_LEFTUP: u32 = 0x0004;

/// `MOUSEEVENTF_RIGHTDOWN`.
pub const MOUSEEVENTF_RIGHTDOWN: u32 = 0x0008;

/// `MOUSEEVENTF_RIGHTUP`.
pub const MOUSEEVENTF_RIGHTUP: u32 = 0x0010;

/// `MOUSEEVENTF_MIDDLEDOWN`.
pub const MOUSEEVENTF_MIDDLEDOWN: u32 = 0x0020;

/// `MOUSEEVENTF_MIDDLEUP`.
pub const MOUSEEVENTF_MIDDLEUP: u32 = 0x0040;

/// `MOUSEEVENTF_WHEEL`.
pub const MOUSEEVENTF_WHEEL: u32 = 0x0800;

/// `KEYEVENTF_EXTENDEDKEY`.
pub const KEYEVENTF_EXTENDEDKEY: u32 = 0x0001;

/// `KEYEVENTF_KEYUP`.
pub const KEYEVENTF_KEYUP: u32 = 0x0002;

/// `KEYEVENTF_SCANCODE`.
pub const KEYEVENTF_SCANCODE: u32 = 0x0008;

/// Wheel step of a scroll up; a scroll down is its opposite.
pub const WHEEL_STEP: u32 = 40;

/// The flags and data of the mouse input for a press (`down`) or release of
/// the client's button `button`: 1 is left, 2 middle, 3 right, 4 and 5 the
/// wheel up and down (a step of 40 either way, on press and release alike).
/// Any other button gives no flag, with the button as data.
pub open spec fn spec_mouse_button_input(button: u32, down: bool) -> (u32, u32) {
    if button == 1 {
        (if down { MOUSEEVENTF_LEFTDOWN } else { MOUSEEVENTF_LEFTUP }, button)
    } else if button == 2 {
        (if down { MOUSEEVENTF_MIDDLEDOWN } else { MOUSEEVENTF_MIDDLEUP }, button)
    } else if button == 3 {
        (if down { MOUSEEVENTF_RIGHTDOWN } else { MOUSEEVENTF_RIGHTUP }, button)
    } else if button == 4 {
        (MOUSEEVENTF_WHEEL, WHEEL_STEP)
    } else if button == 5 {
        (MOUSEEVENTF_WHEEL, (0x1_0000_0000 - WHEEL_STEP) as u32)
    } else {
        (0, button)
    }
}

/// The flags and data of the mouse input for a button event.
pub fn mouse_button_input(button: u32, down: bool) -> (r: (u32, u32))
    ensures
        r == spec_mouse_button_input(button, down),
{
    match (button, down) {
        (1, true) => (MOUSEEVENTF_LEFTDOWN, button),
        (1, false) => (MOUSEEVENTF_LEFTUP, button),
        (2, true) => (MOUSEEVENTF_MIDDLEDOWN, button),
        (2, false) => (MOUSEEVENTF_MIDDLEUP, button),
        (3, true) => (MOUSEEVENTF_RIGHTDOWN, button),
        (3, false) => (MOUSEEVENTF_RIGHTUP, button),
        (4, _) => (MOUSEEVENTF_WHEEL, WHEEL_STEP),
        (5, _) => (MOUSEEVENTF_WHEEL, 0xFFFF_FFD8u32),
        _ => (0, button),
    }
}

/// The flags of a key input given by scan code: a release sets the key up
/// flag, an extended key the extended flag.
pub open spec fn spec_key_input_flags(down: bool, extended: bool) -> u32 {
    (if down { 0u32 } else { KEYEVENTF_KEYUP }) | KEYEVENTF_SCANCODE | (if extended {
        KEYEVENTF_EXTENDEDKEY
    } else {
        0u32
    })
}

/// The scan code and flags of the key input for the client's hardware key
/// code `hw_keycode`; nothing for a key with no scan code.
pub fn keyboard_input(hw_keycode: u32, down: bool) -> (r: Option<(u16, u32)>)
    ensures
        match spec_keycode_to_scancode(hw_keycode) {
            Some((scan, extended)) => r == Some((scan, spec_key_input_flags(down, extended))),
            None => r is None,
        },
{
    match hardware_keycode_to_windows_scancode(hw_keycode) {
        Some((scan, extended)) => {
            let mut flags: u32 = 0;
            if !down {
                flags = flags | KEYEVENTF_KEYUP;
            }
            flags = flags | KEYEVENTF_SCANCODE;
            if extended {
                flags = flags | KEYEVENTF_EXTENDEDKEY;
            }
            assert(flags == spec_key_input_flags(down, extended)) by (bit_vector)
                requires
                    flags == (if extended {
                        ((if down { 0u32 } else { 0u32 | 2u32 }) | 8u32) | 1u32
                    } else {
                        (if down { 0u32 } else { 0u32 | 2u32 }) | 8u32
                    }),
            ;
            Some((scan, flags))
        },
        None => None,
    }
}

/// Law: the client's buttons are injected as the same buttons: left (1)
/// with the flags 0x2 (down) and 0x4 (up), right (3) with 0x8 and 0x10,
/// middle (2) with 0x20 and 0x40; the release flag of a button is twice its
/// press flag. The wheel buttons scroll by 40 up (4) and down (5, the
/// 32 bit value of -40), press and release alike; any other button injects
/// no flag.
pub proof fn lemma_mouse_buttons_injected(button: u32, down: bool)
    ensures
        button == 1 ==> spec_mouse_button_input(button, down) == (if down { 0x2u32 } else { 0x4u32 }, 1u32),
        button == 2 ==> spec_mouse_button_input(button, down) == (if down { 0x20u32 } else { 0x40u32 }, 2u32),
        button == 3 ==> spec_mouse_button_input(button, down) == (if down { 0x8u32 } else { 0x10u32 }, 3u32),
        1 <= button <= 3 ==> spec_mouse_button_input(button, false).0 == 2 * spec_mouse_button_input(
            button,
            true,
        ).0,
        button == 4 ==> spec_mouse_button_input(button, down) == (0x800u32, 40u32),
        button == 5 ==> spec_mouse_button_input(button, down) == (0x800u32, 0xFFFF_FFD8u32),
        button == 0 || button > 5 ==> spec_mouse_button_input(button, down) == (0u32, button),
{
}

/// Law: a key is injected by its scan code, with the scan code flag (0x8);
/// its release adds the key up flag (0x2) and an extended key the extended
/// flag (0x1); nothing else is set.
pub proof fn lemma_key_flags(down: bool, extended: bool)
    ensures
        spec_key_input_flags(down, extended) == 0x8 + (if down { 0u32 } else { 0x2u32 }) + (if extended {
            0x1u32
        } else {
            0u32
        }),
{
    assert((0u32 | 8u32 | 0u32) == 8u32) by (bit_vector);
    assert((0u32 | 8u32 | 1u32) == 9u32) by (bit_vector);
    assert((2u32 | 8u32 | 0u32) == 10u32) by (bit_vector);
    assert((2u32 | 8u32 | 1u32) == 11u32) by (bit_vector);
}

} // verus!
