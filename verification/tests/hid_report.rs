//! Reports of keyboards and mice.
use phonebridge::integrations::hid_report::{
    build_mouse_report, clamp_delta, hid_char_for, key_down_up, modifier_bit_for_code,
    usage_for_code, HidChar, BTN_LEFT, MOD_CTRL, MOD_META, MOD_SHIFT,
};

#[test]
fn letters_and_digits() {
    assert_eq!(
        hid_char_for('a'),
        Some(HidChar {
            usage: 0x04,
            shift: false
        })
    );
    assert_eq!(
        hid_char_for('A'),
        Some(HidChar {
            usage: 0x04,
            shift: true
        })
    );
    assert_eq!(
        hid_char_for('9'),
        Some(HidChar {
            usage: 0x26,
            shift: false
        })
    );
    assert_eq!(
        hid_char_for('0'),
        Some(HidChar {
            usage: 0x27,
            shift: false
        })
    );
}

#[test]
fn punctuation_with_shift() {
    assert_eq!(
        hid_char_for('!'),
        Some(HidChar {
            usage: 0x1E,
            shift: true
        })
    );
    assert_eq!(
        hid_char_for('@'),
        Some(HidChar {
            usage: 0x1F,
            shift: true
        })
    );
    assert_eq!(
        hid_char_for('_'),
        Some(HidChar {
            usage: 0x2D,
            shift: true
        })
    );
    assert_eq!(
        hid_char_for('?'),
        Some(HidChar {
            usage: 0x38,
            shift: true
        })
    );
    assert_eq!(
        hid_char_for('.'),
        Some(HidChar {
            usage: 0x37,
            shift: false
        })
    );
}

#[test]
fn newline_and_tab() {
    assert_eq!(
        hid_char_for('\n'),
        Some(HidChar {
            usage: 0x28,
            shift: false
        })
    );
    assert_eq!(
        hid_char_for('\r'),
        Some(HidChar {
            usage: 0x28,
            shift: false
        })
    );
    assert_eq!(
        hid_char_for('\t'),
        Some(HidChar {
            usage: 0x2B,
            shift: false
        })
    );
}

#[test]
fn unencodable_chars() {
    assert_eq!(hid_char_for('é'), None);
    assert_eq!(hid_char_for('中'), None);
    assert_eq!(hid_char_for('😀'), None);
}

#[test]
fn dom_codes_map_to_usages() {
    assert_eq!(usage_for_code("KeyA"), Some(0x04));
    assert_eq!(usage_for_code("Digit7"), Some(0x24));
    assert_eq!(usage_for_code("Enter"), Some(0x28));
    assert_eq!(usage_for_code("ArrowUp"), Some(0x52));
    assert_eq!(usage_for_code("F12"), Some(0x45));
    assert_eq!(usage_for_code("F13"), None);
    assert_eq!(usage_for_code("KeyAB"), None);
    assert_eq!(usage_for_code("Unidentified"), None);
}

#[test]
fn modifier_bits() {
    assert_eq!(modifier_bit_for_code("ControlLeft"), Some(MOD_CTRL));
    assert_eq!(modifier_bit_for_code("ShiftRight"), Some(MOD_SHIFT));
    assert_eq!(modifier_bit_for_code("MetaLeft"), Some(MOD_META));
    assert_eq!(modifier_bit_for_code("KeyA"), None);
}

#[test]
fn key_down_up_pairing() {
    let reports = key_down_up(0x04, MOD_SHIFT);
    assert_eq!(reports[0].keys[0], 0x04);
    assert_eq!(reports[0].modifiers, MOD_SHIFT);
    assert_eq!(reports[1].keys, [0; 6]);
    assert_eq!(reports[1].modifiers, MOD_SHIFT);
}

#[test]
fn mouse_delta_clamp() {
    assert_eq!(clamp_delta(200), 127);
    assert_eq!(clamp_delta(-200), -127);
    assert_eq!(clamp_delta(42), 42);
}

#[test]
fn mouse_report_bytes() {
    let r = build_mouse_report(BTN_LEFT, 10, -5, 3);
    assert_eq!(r.buttons, BTN_LEFT);
    assert_eq!(r.dx, 10);
    assert_eq!(r.dy, -5);
    assert_eq!(r.wheel, 3);
}
