//! Translation between Windows (PS/2 set 1) scan codes and the hardware
//! key codes of X11.

use vstd::prelude::*;

verus! {

/// The hardware key code of the scan code `keycode` of a key that is not
/// extended.
pub open spec fn spec_scancode_to_keycode(keycode: u32) -> Option<u16> {
    match keycode {
        0x52 => Some(0x5au16),
        0x4f => Some(0x57u16),
        0x50 => Some(0x58u16),
        0x51 => Some(0x59u16),
        0x4b => Some(0x53u16),
        0x4c => Some(0x54u16),
        0x4d => Some(0x55u16),
        0x47 => Some(0x4fu16),
        0x48 => Some(0x50u16),
        0x49 => Some(0x51u16),
        0x37 => Some(0x3fu16),
        0x4a => Some(0x52u16),
        0x4e => Some(0x56u16),
        0x46 => Some(0x4eu16),
        0x45 => Some(0x7fu16),
        0x38 => Some(0x40u16),
        0x1d => Some(0x25u16),
        0x01 => Some(0x09u16),
        0x02 => Some(0x0au16),
        0x03 => Some(0x0bu16),
        0x04 => Some(0x0cu16),
        0x05 => Some(0x0du16),
        0x06 => Some(0x0eu16),
        0x07 => Some(0x0fu16),
        0x08 => Some(0x10u16),
        0x09 => Some(0x11u16),
        0x0a => Some(0x12u16),
        0x0b => Some(0x13u16),
        0x0c => Some(0x14u16),
        0x0d => Some(0x15u16),
        0x0e => Some(0x16u16),
        0x0f => Some(0x17u16),
        0x10 => Some(0x18u16),
        0x11 => Some(0x19u16),
        0x12 => Some(0x1au16),
        0x13 => Some(0x1bu16),
        0x14 => Some(0x1cu16),
        0x15 => Some(0x1du16),
        0x16 => Some(0x1eu16),
        0x17 => Some(0x1fu16),
        0x18 => Some(0x20u16),
        0x19 => Some(0x21u16),
        0x1a => Some(0x22u16),
        0x1b => Some(0x23u16),
        0x1c => Some(0x24u16),
        0x1e => Some(0x26u16),
        0x1f => Some(0x27u16),
        0x20 => Some(0x28u16),
        0x21 => Some(0x29u16),
        0x22 => Some(0x2au16),
        0x23 => Some(0x2bu16),
        0x24 => Some(0x2cu16),
        0x25 => Some(0x2du16),
        0x26 => Some(0x2eu16),
        0x27 => Some(0x2fu16),
        0x28 => Some(0x30u16),
        0x29 => Some(0x31u16),
        0x2b => Some(0x33u16),
        0x2a => Some(0x32u16),
        0x2c => Some(0x34u16),
        0x2d => Some(0x35u16),
        0x2e => Some(0x36u16),
        0x2f => Some(0x37u16),
        0x30 => Some(0x38u16),
        0x31 => Some(0x39u16),
        0x32 => Some(0x3au16),
        0x33 => Some(0x3bu16),
        0x34 => Some(0x3cu16),
        0x35 => Some(0x3du16),
        0x39 => Some(0x41u16),
        0x3a => Some(0x42u16),
        0x3b => Some(0x43u16),
        0x3c => Some(0x44u16),
        0x3d => Some(0x45u16),
        0x3e => Some(0x46u16),
        0x3f => Some(0x47u16),
        0x40 => Some(0x48u16),
        0x41 => Some(0x49u16),
        0x42 => Some(0x4au16),
        0x43 => Some(0x4bu16),
        0x44 => Some(0x4cu16),
        0x53 => Some(0x5bu16),
        0x56 => Some(0x5eu16),
        0x57 => Some(0x5fu16),
        0x58 => Some(0x60u16),
        _ => None,
    }
}

/// The hardware key code of the scan code `keycode` of an extended key.
pub open spec fn spec_extended_scancode_to_keycode(keycode: u32) -> Option<u16> {
    match keycode {
        0x4b => Some(0x71u16),
        0x4d => Some(0x72u16),
        0x48 => Some(0x6fu16),
        0x50 => Some(0x74u16),
        0x35 => Some(0x6au16),
        0x1c => Some(0x24u16),
        0x52 => Some(0x76u16),
        0x53 => Some(0x77u16),
        0x47 => Some(0x6eu16),
        0x4f => Some(0x73u16),
        0x49 => Some(0x70u16),
        0x51 => Some(0x75u16),
        0x38 => Some(0x6cu16),
        0x1d => Some(0x69u16),
        0x36 => Some(0x3eu16),
        0x45 => Some(0x4du16),
        0x5b => Some(0x85u16),
        0x5c => Some(0x86u16),
        0x5d => Some(0x87u16),
        _ => None,
    }
}

/// The scan code of a hardware key code, and whether the key is extended.
pub open spec fn spec_keycode_to_scancode(hw_keycode: u32) -> Option<(u16, bool)> {
    match hw_keycode {
        0x0009 => Some((0x01u16, false)),
        0x000a => Some((0x02u16, false)),
        0x000b => Some((0x03u16, false)),
        0x000c => Some((0x04u16, false)),
        0x000d => Some((0x05u16, false)),
        0x000e => Some((0x06u16, false)),
        0x000f => Some((0x07u16, false)),
        0x0010 => Some((0x08u16, false)),
        0x0011 => Some((0x09u16, false)),
        0x0012 => Some((0x0au16, false)),
        0x0013 => Some((0x0bu16, false)),
        0x0014 => Some((0x0cu16, false)),
        0x0015 => Some((0x0du16, false)),
        0x0016 => Some((0x0eu16, false)),
        0x0017 => Some((0x0fu16, false)),
        0x0018 => Some((0x10u16, false)),
        0x0019 => Some((0x11u16, false)),
        0x001a => Some((0x12u16, false)),
        0x001b => Some((0x13u16, false)),
        0x001c => Some((0x14u16, false)),
        0x001d => Some((0x15u16, false)),
        0x001e => Some((0x16u16, false)),
        0x001f => Some((0x17u16, false)),
        0x0020 => Some((0x18u16, false)),
        0x0021 => Some((0x19u16, false)),
        0x0022 => Some((0x1au16, false)),
        0x0023 => Some((0x1bu16, false)),
        0x0024 => Some((0x1cu16, false)),
        0x0025 => Some((0x1du16, false)),
        0x0026 => Some((0x1eu16, false)),
        0x0027 => Some((0x1fu16, false)),
        0x0028 => Some((0x20u16, false)),
        0x0029 => Some((0x21u16, false)),
        0x002a => Some((0x22u16, false)),
        0x002b => Some((0x23u16, false)),
        0x002c => Some((0x24u16, false)),
        0x002d => Some((0x25u16, false)),
        0x002e => Some((0x26u16, false)),
        0x002f => Some((0x27u16, false)),
        0x0030 => Some((0x28u16, false)),
        0x0031 => Some((0x29u16, false)),
        0x0033 => Some((0x2bu16, false)),
        0x0032 => Some((0x2au16, false)),
        0x0034 => Some((0x2cu16, false)),
        0x0035 => Some((0x2du16, false)),
        0x0036 => Some((0x2eu16, false)),
        0x0037 => Some((0x2fu16, false)),
        0x0038 => Some((0x30u16, false)),
        0x0039 => Some((0x31u16, false)),
        0x003a => Some((0x32u16, false)),
        0x003b => Some((0x33u16, false)),
        0x003c => Some((0x34u16, false)),
        0x003d => Some((0x35u16, false)),
        0x003e => Some((0x36u16, false)),
        0x003f => Some((0x37u16, false)),
        0x0040 => Some((0x38u16, false)),
        0x0041 => Some((0x39u16, false)),
        0x0042 => Some((0x3au16, false)),
        0x0043 => Some((0x3bu16, false)),
        0x0044 => Some((0x3cu16, false)),
        0x0045 => Some((0x3du16, false)),
        0x0046 => Some((0x3eu16, false)),
        0x0047 => Some((0x3fu16, false)),
        0x0048 => Some((0x40u16, false)),
        0x0049 => Some((0x41u16, false)),
        0x004a => Some((0x42u16, false)),
        0x004b => Some((0x43u16, false)),
        0x004c => Some((0x44u16, false)),
        0x004d => Some((0x45u16, false)),
        0x004e => Some((0x46u16, false)),
        0x004f => Some((0x47u16, false)),
        0x0052 => Some((0x4au16, false)),
        0x0054 => Some((0x4cu16, false)),
        0x0056 => Some((0x4eu16, false)),
        0x005e => Some((0x56u16, false)),
        0x005f => Some((0x57u16, false)),
        0x0060 => Some((0x58u16, false)),
        0x006c => Some((0x38u16, true)),
        0x0050 => Some((0x48u16, false)),
        0x0051 => Some((0x49u16, false)),
        0x0053 => Some((0x4bu16, false)),
        0x0055 => Some((0x4du16, false)),
        0x0057 => Some((0x4fu16, false)),
        0x0058 => Some((0x50u16, false)),
        0x0059 => Some((0x51u16, false)),
        0x005a => Some((0x52u16, false)),
        0x005b => Some((0x53u16, false)),
        0x006f => Some((0x48u16, true)),
        0x0070 => Some((0x49u16, true)),
        0x0071 => Some((0x4bu16, true)),
        0x0072 => Some((0x4du16, true)),
        0x0073 => Some((0x4fu16, true)),
        0x0074 => Some((0x50u16, true)),
        0x0075 => Some((0x51u16, true)),
        0x0076 => Some((0x52u16, true)),
        0x0077 => Some((0x53u16, true)),
        _ => None,
    }
}

/// The hardware key code of the key whose scan code is `keycode`; bit 0 of
/// `flags` tells an extended key. `None` for a key that has none.
pub fn windows_scancode_to_hardware_keycode(keycode: u32, flags: u32) -> (res: Option<u16>)
    ensures
        flags % 2 == 0 ==> res == spec_scancode_to_keycode(keycode),
        flags % 2 == 1 ==> res == spec_extended_scancode_to_keycode(keycode),
{
    if flags % 2 == 0 {
        match keycode {
            0x52 => Some(0x5au16),
            0x4f => Some(0x57u16),
            0x50 => Some(0x58u16),
            0x51 => Some(0x59u16),
            0x4b => Some(0x53u16),
            0x4c => Some(0x54u16),
            0x4d => Some(0x55u16),
            0x47 => Some(0x4fu16),
            0x48 => Some(0x50u16),
            0x49 => Some(0x51u16),
            0x37 => Some(0x3fu16),
            0x4a => Some(0x52u16),
            0x4e => Some(0x56u16),
            0x46 => Some(0x4eu16),
            0x45 => Some(0x7fu16),
            0x38 => Some(0x40u16),
            0x1d => Some(0x25u16),
            0x01 => Some(0x09u16),
            0x02 => Some(0x0au16),
            0x03 => Some(0x0bu16),
            0x04 => Some(0x0cu16),
            0x05 => Some(0x0du16),
            0x06 => Some(0x0eu16),
            0x07 => Some(0x0fu16),
            0x08 => Some(0x10u16),
            0x09 => Some(0x11u16),
            0x0a => Some(0x12u16),
            0x0b => Some(0x13u16),
            0x0c => Some(0x14u16),
            0x0d => Some(0x15u16),
            0x0e => Some(0x16u16),
            0x0f => Some(0x17u16),
            0x10 => Some(0x18u16),
            0x11 => Some(0x19u16),
            0x12 => Some(0x1au16),
            0x13 => Some(0x1bu16),
            0x14 => Some(0x1cu16),
            0x15 => Some(0x1du16),
            0x16 => Some(0x1eu16),
            0x17 => Some(0x1fu16),
            0x18 => Some(0x20u16),
            0x19 => Some(0x21u16),
            0x1a => Some(0x22u16),
            0x1b => Some(0x23u16),
            0x1c => Some(0x24u16),
            0x1e => Some(0x26u16),
            0x1f => Some(0x27u16),
            0x20 => Some(0x28u16),
            0x21 => Some(0x29u16),
            0x22 => Some(0x2au16),
            0x23 => Some(0x2bu16),
            0x24 => Some(0x2cu16),
            0x25 => Some(0x2du16),
            0x26 => Some(0x2eu16),
            0x27 => Some(0x2fu16),
            0x28 => Some(0x30u16),
            0x29 => Some(0x31u16),
            0x2b => Some(0x33u16),
            0x2a => Some(0x32u16),
            0x2c => Some(0x34u16),
            0x2d => Some(0x35u16),
            0x2e => Some(0x36u16),
            0x2f => Some(0x37u16),
            0x30 => Some(0x38u16),
            0x31 => Some(0x39u16),
            0x32 => Some(0x3au16),
            0x33 => Some(0x3bu16),
            0x34 => Some(0x3cu16),
            0x35 => Some(0x3du16),
            0x39 => Some(0x41u16),
            0x3a => Some(0x42u16),
            0x3b => Some(0x43u16),
            0x3c => Some(0x44u16),
            0x3d => Some(0x45u16),
            0x3e => Some(0x46u16),
            0x3f => Some(0x47u16),
            0x40 => Some(0x48u16),
            0x41 => Some(0x49u16),
            0x42 => Some(0x4au16),
            0x43 => Some(0x4bu16),
            0x44 => Some(0x4cu16),
            0x53 => Some(0x5bu16),
            0x56 => Some(0x5eu16),
            0x57 => Some(0x5fu16),
            0x58 => Some(0x60u16),
            _ => None,
        }
    } else {
        match keycode {
            0x4b => Some(0x71u16),
            0x4d => Some(0x72u16),
            0x48 => Some(0x6fu16),
            0x50 => Some(0x74u16),
            0x35 => Some(0x6au16),
            0x1c => Some(0x24u16),
            0x52 => Some(0x76u16),
            0x53 => Some(0x77u16),
            0x47 => Some(0x6eu16),
            0x4f => Some(0x73u16),
            0x49 => Some(0x70u16),
            0x51 => Some(0x75u16),
            0x38 => Some(0x6cu16),
            0x1d => Some(0x69u16),
            0x36 => Some(0x3eu16),
            0x45 => Some(0x4du16),
            0x5b => Some(0x85u16),
            0x5c => Some(0x86u16),
            0x5d => Some(0x87u16),
            _ => None,
        }
    }
}

/// The scan code of the hardware key code `hw_keycode`, with whether the key
/// is extended; `None` for a key that has none.
pub fn hardware_keycode_to_windows_scancode(hw_keycode: u32) -> (res: Option<(u16, bool)>)
    ensures
        res == spec_keycode_to_scancode(hw_keycode),
{
    match hw_keycode {
        0x0009 => Some((0x01u16, false)),
        0x000a => Some((0x02u16, false)),
        0x000b => Some((0x03u16, false)),
        0x000c => Some((0x04u16, false)),
        0x000d => Some((0x05u16, false)),
        0x000e => Some((0x06u16, false)),
        0x000f => Some((0x07u16, false)),
        0x0010 => Some((0x08u16, false)),
        0x0011 => Some((0x09u16, false)),
        0x0012 => Some((0x0au16, false)),
        0x0013 => Some((0x0bu16, false)),
        0x0014 => Some((0x0cu16, false)),
        0x0015 => Some((0x0du16, false)),
        0x0016 => Some((0x0eu16, false)),
        0x0017 => Some((0x0fu16, false)),
        0x0018 => Some((0x10u16, false)),
        0x0019 => Some((0x11u16, false)),
        0x001a => Some((0x12u16, false)),
        0x001b => Some((0x13u16, false)),
        0x001c => Some((0x14u16, false)),
        0x001d => Some((0x15u16, false)),
        0x001e => Some((0x16u16, false)),
        0x001f => Some((0x17u16, false)),
        0x0020 => Some((0x18u16, false)),
        0x0021 => Some((0x19u16, false)),
        0x0022 => Some((0x1au16, false)),
        0x0023 => Some((0x1bu16, false)),
        0x0024 => Some((0x1cu16, false)),
        0x0025 => Some((0x1du16, false)),
        0x0026 => Some((0x1eu16, false)),
        0x0027 => Some((0x1fu16, false)),
        0x0028 => Some((0x20u16, false)),
        0x0029 => Some((0x21u16, false)),
        0x002a => Some((0x22u16, false)),
        0x002b => Some((0x23u16, false)),
        0x002c => Some((0x24u16, false)),
        0x002d => Some((0x25u16, false)),
        0x002e => Some((0x26u16, false)),
        0x002f => Some((0x27u16, false)),
        0x0030 => Some((0x28u16, false)),
        0x0031 => Some((0x29u16, false)),
        0x0033 => Some((0x2bu16, false)),
        0x0032 => Some((0x2au16, false)),
        0x0034 => Some((0x2cu16, false)),
        0x0035 => Some((0x2du16, false)),
        0x0036 => Some((0x2eu16, false)),
        0x0037 => Some((0x2fu16, false)),
        0x0038 => Some((0x30u16, false)),
        0x0039 => Some((0x31u16, false)),
        0x003a => Some((0x32u16, false)),
        0x003b => Some((0x33u16, false)),
        0x003c => Some((0x34u16, false)),
        0x003d => Some((0x35u16, false)),
        0x003e => Some((0x36u16, false)),
        0x003f => Some((0x37u16, false)),
        0x0040 => Some((0x38u16, false)),
        0x0041 => Some((0x39u16, false)),
        0x0042 => Some((0x3au16, false)),
        0x0043 => Some((0x3bu16, false)),
        0x0044 => Some((0x3cu16, false)),
        0x0045 => Some((0x3du16, false)),
        0x0046 => Some((0x3eu16, false)),
        0x0047 => Some((0x3fu16, false)),
        0x0048 => Some((0x40u16, false)),
        0x0049 => Some((0x41u16, false)),
        0x004a => Some((0x42u16, false)),
        0x004b => Some((0x43u16, false)),
        0x004c => Some((0x44u16, false)),
        0x004d => Some((0x45u16, false)),
        0x004e => Some((0x46u16, false)),
        0x004f => Some((0x47u16, false)),
        0x0052 => Some((0x4au16, false)),
        0x0054 => Some((0x4cu16, false)),
        0x0056 => Some((0x4eu16, false)),
        0x005e => Some((0x56u16, false)),
        0x005f => Some((0x57u16, false)),
        0x0060 => Some((0x58u16, false)),
        0x006c => Some((0x38u16, true)),
        0x0050 => Some((0x48u16, false)),
        0x0051 => Some((0x49u16, false)),
        0x0053 => Some((0x4bu16, false)),
        0x0055 => Some((0x4du16, false)),
        0x0057 => Some((0x4fu16, false)),
        0x0058 => Some((0x50u16, false)),
        0x0059 => Some((0x51u16, false)),
        0x005a => Some((0x52u16, false)),
        0x005b => Some((0x53u16, false)),
        0x006f => Some((0x48u16, true)),
        0x0070 => Some((0x49u16, true)),
        0x0071 => Some((0x4bu16, true)),
        0x0072 => Some((0x4du16, true)),
        0x0073 => Some((0x4fu16, true)),
        0x0074 => Some((0x50u16, true)),
        0x0075 => Some((0x51u16, true)),
        0x0076 => Some((0x52u16, true)),
        0x0077 => Some((0x53u16, true)),
        _ => None,
    }
}

/// Going from a scan code to a hardware key code and back gives the scan code
/// again, but for the keys that have no way back (extended enter, right
/// control, keypad divide, right shift, pause, num lock, home of the
/// extended set, and the three Windows keys).
pub proof fn lemma_scancode_roundtrip(keycode: u32, extended: bool)
    requires
        !extended ==> keycode != 0x45,
        extended ==> keycode != 0x1c && keycode != 0x1d && keycode != 0x35 && keycode != 0x36
            && keycode != 0x45 && keycode != 0x47 && keycode != 0x5b && keycode != 0x5c
            && keycode != 0x5d,
    ensures
        ({
            let hw = if extended {
                spec_extended_scancode_to_keycode(keycode)
            } else {
                spec_scancode_to_keycode(keycode)
            };
            hw matches Some(h) ==> spec_keycode_to_scancode(h as u32) == Some((keycode as u16, extended))
        }),
{
}

/// Going from a hardware key code to a scan code and back gives the hardware
/// key code again, but for right shift and num lock.
pub proof fn lemma_keycode_roundtrip(hw_keycode: u32)
    requires
        hw_keycode != 0x3e,
        hw_keycode != 0x4d,
    ensures
        spec_keycode_to_scancode(hw_keycode) matches Some((k, ext)) ==> (if ext {
            spec_extended_scancode_to_keycode(k as u32)
        } else {
            spec_scancode_to_keycode(k as u32)
        }) == Some(hw_keycode as u16),
{
}

/// Law: the keys of the main block (PS/2 set 1 scan codes 0x01 to 0x58,
/// not extended) have the X11 evdev key code eight above their scan code:
/// all of them but pause (0x45, which takes 0x7f) and the three scan codes
/// that have no key code (0x36, 0x54, 0x55); no other scan code that is not
/// extended has one.
pub proof fn lemma_main_block_keycodes(keycode: u32)
    ensures
        0x01 <= keycode <= 0x58 && keycode != 0x36 && keycode != 0x45 && keycode != 0x54 && keycode
            != 0x55 ==> spec_scancode_to_keycode(keycode) == Some((keycode + 8) as u16),
        keycode == 0x45 ==> spec_scancode_to_keycode(keycode) == Some(0x7fu16),
        (keycode == 0 || keycode > 0x58 || keycode == 0x36 || keycode == 0x54 || keycode == 0x55)
            ==> spec_scancode_to_keycode(keycode) is None,
{
}

/// Law: the key codes 0x09 to 0x60 of X11 evdev give back the scan code
/// eight below, not extended; all of them but the two key codes that have
/// no scan code (0x5c, 0x5d). The key codes of the
/// extended keys give an extended scan code, and no key code outside these
/// has one.
pub proof fn lemma_main_block_scancodes(hw_keycode: u32)
    ensures
        0x09 <= hw_keycode <= 0x60 && hw_keycode != 0x5c && hw_keycode != 0x5d ==> spec_keycode_to_scancode(hw_keycode) == Some(((hw_keycode - 8) as u16, false)),
        (hw_keycode == 0x6c || 0x6f <= hw_keycode <= 0x77) ==> (spec_keycode_to_scancode(hw_keycode)
            matches Some((_, ext)) && ext),
        (hw_keycode < 0x09 || (0x60 < hw_keycode < 0x6f && hw_keycode != 0x6c) || hw_keycode > 0x77
            || hw_keycode == 0x5c || hw_keycode == 0x5d) ==> spec_keycode_to_scancode(
            hw_keycode,
        ) is None,
{
}

/// Law: the extended keys that share their scan code with a key of the
/// numeric keypad are the dedicated navigation keys, whose X11 evdev key
/// codes follow each other from 0x6e in the order home, up, page up, left,
/// right, end, down, page down, insert, delete; with the same scan code not
/// extended, the key is the keypad's. The other extended keys are the right
/// hand modifiers (right control 0x69, right alt 0x6c, right shift 0x3e),
/// keypad enter (0x24) and divide (0x6a), num lock (0x4d) and the Windows
/// and menu keys (0x85, 0x86, 0x87); no other scan code is extended.
pub proof fn lemma_extended_keycodes(keycode: u32)
    ensures
        keycode == 0x47 ==> spec_extended_scancode_to_keycode(keycode) == Some(0x6eu16),
        keycode == 0x48 ==> spec_extended_scancode_to_keycode(keycode) == Some(0x6fu16),
        keycode == 0x49 ==> spec_extended_scancode_to_keycode(keycode) == Some(0x70u16),
        keycode == 0x4b ==> spec_extended_scancode_to_keycode(keycode) == Some(0x71u16),
        keycode == 0x4d ==> spec_extended_scancode_to_keycode(keycode) == Some(0x72u16),
        keycode == 0x4f ==> spec_extended_scancode_to_keycode(keycode) == Some(0x73u16),
        keycode == 0x50 ==> spec_extended_scancode_to_keycode(keycode) == Some(0x74u16),
        keycode == 0x51 ==> spec_extended_scancode_to_keycode(keycode) == Some(0x75u16),
        keycode == 0x52 ==> spec_extended_scancode_to_keycode(keycode) == Some(0x76u16),
        keycode == 0x53 ==> spec_extended_scancode_to_keycode(keycode) == Some(0x77u16),
        keycode == 0x1d ==> spec_extended_scancode_to_keycode(keycode) == Some(0x69u16),
        keycode == 0x38 ==> spec_extended_scancode_to_keycode(keycode) == Some(0x6cu16),
        keycode == 0x36 ==> spec_extended_scancode_to_keycode(keycode) == Some(0x3eu16),
        keycode == 0x1c ==> spec_extended_scancode_to_keycode(keycode) == Some(0x24u16),
        keycode == 0x35 ==> spec_extended_scancode_to_keycode(keycode) == Some(0x6au16),
        keycode == 0x45 ==> spec_extended_scancode_to_keycode(keycode) == Some(0x4du16),
        0x5b <= keycode <= 0x5d ==> spec_extended_scancode_to_keycode(keycode) == Some((keycode + 0x2a) as u16),
        spec_extended_scancode_to_keycode(keycode) is Some <==> (keycode == 0x1c || keycode == 0x1d || keycode
            == 0x35 || keycode == 0x36 || keycode == 0x38 || keycode == 0x45 || 0x47 <= keycode <= 0x49
            || keycode == 0x4b || keycode == 0x4d || 0x4f <= keycode <= 0x53 || 0x5b <= keycode <= 0x5d),
        (0x47 <= keycode <= 0x53 && keycode != 0x4a && keycode != 0x4c && keycode != 0x4e)
            ==> spec_scancode_to_keycode(keycode) == Some((keycode + 8) as u16),
{
}

} // verus!
