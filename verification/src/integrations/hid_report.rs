//! Keyboard and mouse reports, and which key types which character.
//!
//! A keyboard report is eight bytes long: the modifiers, a reserved byte that is zero, and up
//! to six keys. Keys are named by their usage on the keyboard page, not by a layout.
use vstd::prelude::*;

use crate::text;

verus! {

pub const MOD_CTRL: u8 = 0x01;

pub const MOD_SHIFT: u8 = 0x02;

pub const MOD_ALT: u8 = 0x04;

pub const MOD_META: u8 = 0x08;

pub const BTN_LEFT: u8 = 0x01;

pub const BTN_RIGHT: u8 = 0x02;

pub const BTN_MIDDLE: u8 = 0x04;

/// A keyboard report.
#[derive(Debug, Clone, Copy, PartialEq, Eq)]
pub struct KeyboardReport {
    pub modifiers: u8,
    /// Always zero.
    pub reserved: u8,
    pub keys: [u8; 6],
}

/// A mouse report with relative movement.
#[derive(Debug, Clone, Copy, PartialEq, Eq)]
pub struct MouseReport {
    pub buttons: u8,
    pub dx: i8,
    pub dy: i8,
    pub wheel: i8,
}

/// A mouse button that was pressed or released.
#[derive(Debug, Clone, Copy, PartialEq, Eq)]
pub struct PointerButton {
    pub button: u8,
    pub pressed: bool,
}

impl Default for KeyboardReport {
    fn default() -> (r: Self)
        ensures
            r == released(0),
    {
        KeyboardReport { modifiers: 0, reserved: 0, keys: [0, 0, 0, 0, 0, 0] }
    }
}

impl Default for MouseReport {
    fn default() -> (r: Self)
        ensures
            r == (MouseReport { buttons: 0, dx: 0, dy: 0, wheel: 0 }),
    {
        MouseReport { buttons: 0, dx: 0, dy: 0, wheel: 0 }
    }
}

/// The report that holds one key down.
pub open spec fn pressed(usage: u8, modifiers: u8) -> KeyboardReport {
    KeyboardReport { modifiers, reserved: 0, keys: [usage, 0, 0, 0, 0, 0] }
}

/// The report that holds no key down.
pub open spec fn released(modifiers: u8) -> KeyboardReport {
    KeyboardReport { modifiers, reserved: 0, keys: [0, 0, 0, 0, 0, 0] }
}

/// A keyboard report of the given modifiers and keys.
pub fn build_keyboard_report(modifiers: u8, keys: [u8; 6]) -> (r: KeyboardReport)
    ensures
        r == (KeyboardReport { modifiers, reserved: 0, keys }),
{
    KeyboardReport { modifiers, reserved: 0, keys }
}

/// The two reports that press and release one key.
pub fn key_down_up(usage: u8, modifiers: u8) -> (r: [KeyboardReport; 2])
    ensures
        r@ == seq![pressed(usage, modifiers), released(modifiers)],
{
    [
        KeyboardReport { modifiers, reserved: 0, keys: [usage, 0, 0, 0, 0, 0] },
        KeyboardReport { modifiers, reserved: 0, keys: [0, 0, 0, 0, 0, 0] },
    ]
}

/// A mouse report of the given buttons and movement.
pub fn build_mouse_report(buttons: u8, dx: i8, dy: i8, wheel: i8) -> (r: MouseReport)
    ensures
        r == (MouseReport { buttons, dx, dy, wheel }),
{
    MouseReport { buttons, dx, dy, wheel }
}

impl KeyboardReport {
    /// The report as it is sent.
    pub open spec fn wire(self) -> Seq<u8> {
        seq![
            self.modifiers,
            self.reserved,
            self.keys[0],
            self.keys[1],
            self.keys[2],
            self.keys[3],
            self.keys[4],
            self.keys[5],
        ]
    }

    /// The report as it is sent.
    pub fn bytes(&self) -> (r: [u8; 8])
        ensures
            r@ == self.wire(),
    {
        [
            self.modifiers,
            self.reserved,
            self.keys[0],
            self.keys[1],
            self.keys[2],
            self.keys[3],
            self.keys[4],
            self.keys[5],
        ]
    }
}

/// The nearest movement that a report can hold.
pub open spec fn clamped(v: int) -> int {
    if v < -127 {
        -127
    } else if v > 127 {
        127
    } else {
        v
    }
}

/// The nearest movement that a report can hold.
pub fn clamp_delta(v: i32) -> (r: i8)
    ensures
        r == clamped(v as int),
{
    if v < -127 {
        -127
    } else if v > 127 {
        127
    } else {
        v as i8
    }
}

/// The key that types a character, and whether shift is held.
#[derive(Debug, Clone, Copy, PartialEq, Eq, Structural)]
pub struct HidChar {
    pub usage: u8,
    pub shift: bool,
}

/// A character as it is typed.
#[derive(Debug, Clone, Copy, PartialEq, Eq, Structural)]
pub struct EncodedChar {
    pub usage: u8,
    pub shift: bool,
}

pub open spec fn plain(usage: u8) -> Option<HidChar> {
    Some(HidChar { usage, shift: false })
}

pub open spec fn shifted(usage: u8) -> Option<HidChar> {
    Some(HidChar { usage, shift: true })
}

/// The usage of a lower-case letter.
pub open spec fn letter_usage(c: char) -> Option<u8> {
    if text::is_lower(c) {
        Some((0x04 + (c as u32 - 97)) as u8)
    } else {
        None
    }
}

/// The usage of a digit; zero stands behind nine.
pub open spec fn digit_usage(c: char) -> Option<u8> {
    if c == '0' {
        Some(0x27)
    } else if '1' <= c && c <= '9' {
        Some((0x1E + (c as u32 - 49)) as u8)
    } else {
        None
    }
}

/// The key that types a character; `None` where no key does.
pub open spec fn key_for(c: char) -> Option<HidChar> {
    if text::is_lower(c) {
        plain(letter_usage(c)->0)
    } else if text::is_upper(c) {
        shifted(letter_usage(text::lower(c))->0)
    } else if text::is_digit(c) {
        plain(digit_usage(c)->0)
    } else if c == ' ' {
        plain(0x2C)
    } else if c == '-' {
        plain(0x2D)
    } else if c == '=' {
        plain(0x2E)
    } else if c == '[' {
        plain(0x2F)
    } else if c == ']' {
        plain(0x30)
    } else if c == '\\' {
        plain(0x31)
    } else if c == ';' {
        plain(0x33)
    } else if c == '\'' {
        plain(0x34)
    } else if c == '`' {
        plain(0x35)
    } else if c == ',' {
        plain(0x36)
    } else if c == '.' {
        plain(0x37)
    } else if c == '/' {
        plain(0x38)
    } else if c == '!' {
        shifted(0x1E)
    } else if c == '@' {
        shifted(0x1F)
    } else if c == '#' {
        shifted(0x20)
    } else if c == '$' {
        shifted(0x21)
    } else if c == '%' {
        shifted(0x22)
    } else if c == '^' {
        shifted(0x23)
    } else if c == '&' {
        shifted(0x24)
    } else if c == '*' {
        shifted(0x25)
    } else if c == '(' {
        shifted(0x26)
    } else if c == ')' {
        shifted(0x27)
    } else if c == '_' {
        shifted(0x2D)
    } else if c == '+' {
        shifted(0x2E)
    } else if c == '{' {
        shifted(0x2F)
    } else if c == '}' {
        shifted(0x30)
    } else if c == '|' {
        shifted(0x31)
    } else if c == ':' {
        shifted(0x33)
    } else if c == '"' {
        shifted(0x34)
    } else if c == '~' {
        shifted(0x35)
    } else if c == '<' {
        shifted(0x36)
    } else if c == '>' {
        shifted(0x37)
    } else if c == '?' {
        shifted(0x38)
    } else if c == '\n' {
        plain(0x28)
    } else if c == '\r' {
        plain(0x28)
    } else if c == '\t' {
        plain(0x2B)
    } else {
        None
    }
}

fn usage_for_letter(c: char) -> (r: Option<u8>)
    ensures
        r == letter_usage(c),
{
    if 'a' <= c && c <= 'z' {
        Some((0x04 + (c as u32 - 97)) as u8)
    } else {
        None
    }
}

fn usage_for_digit(c: char) -> (r: Option<u8>)
    ensures
        r == digit_usage(c),
{
    if c == '0' {
        Some(0x27)
    } else if '1' <= c && c <= '9' {
        Some((0x1E + (c as u32 - 49)) as u8)
    } else {
        None
    }
}

fn plain_key(usage: u8) -> (r: Option<HidChar>)
    ensures
        r == plain(usage),
{
    Some(HidChar { usage, shift: false })
}

fn shifted_key(usage: u8) -> (r: Option<HidChar>)
    ensures
        r == shifted(usage),
{
    Some(HidChar { usage, shift: true })
}

/// The key that types a character; `None` where no key does.
pub fn hid_char_for(c: char) -> (r: Option<HidChar>)
    ensures
        r == key_for(c),
{
    if 'a' <= c && c <= 'z' {
        return match usage_for_letter(c) {
            Some(u) => plain_key(u),
            None => None,
        };
    }
    if 'A' <= c && c <= 'Z' {
        return match usage_for_letter(text::lower_char(c)) {
            Some(u) => shifted_key(u),
            None => None,
        };
    }
    if text::digit(c) {
        return match usage_for_digit(c) {
            Some(u) => plain_key(u),
            None => None,
        };
    }
    match c {
        ' ' => plain_key(0x2C),
        '-' => plain_key(0x2D),
        '=' => plain_key(0x2E),
        '[' => plain_key(0x2F),
        ']' => plain_key(0x30),
        '\\' => plain_key(0x31),
        ';' => plain_key(0x33),
        '\'' => plain_key(0x34),
        '`' => plain_key(0x35),
        ',' => plain_key(0x36),
        '.' => plain_key(0x37),
        '/' => plain_key(0x38),
        '!' => shifted_key(0x1E),
        '@' => shifted_key(0x1F),
        '#' => shifted_key(0x20),
        '$' => shifted_key(0x21),
        '%' => shifted_key(0x22),
        '^' => shifted_key(0x23),
        '&' => shifted_key(0x24),
        '*' => shifted_key(0x25),
        '(' => shifted_key(0x26),
        ')' => shifted_key(0x27),
        '_' => shifted_key(0x2D),
        '+' => shifted_key(0x2E),
        '{' => shifted_key(0x2F),
        '}' => shifted_key(0x30),
        '|' => shifted_key(0x31),
        ':' => shifted_key(0x33),
        '"' => shifted_key(0x34),
        '~' => shifted_key(0x35),
        '<' => shifted_key(0x36),
        '>' => shifted_key(0x37),
        '?' => shifted_key(0x38),
        '\n' => plain_key(0x28),
        '\r' => plain_key(0x28),
        '\t' => plain_key(0x2B),
        _ => None,
    }
}

/// The usage of a key that has a name of its own.
pub open spec fn named_usage(code: Seq<char>) -> Option<u8> {
    if code == "Enter"@ {
        Some(0x28)
    } else if code == "Escape"@ {
        Some(0x29)
    } else if code == "Backspace"@ {
        Some(0x2A)
    } else if code == "Tab"@ {
        Some(0x2B)
    } else if code == "Space"@ {
        Some(0x2C)
    } else if code == "CapsLock"@ {
        Some(0x39)
    } else if code == "Insert"@ {
        Some(0x49)
    } else if code == "Delete"@ {
        Some(0x4C)
    } else if code == "Home"@ {
        Some(0x4A)
    } else if code == "End"@ {
        Some(0x4D)
    } else if code == "PageUp"@ {
        Some(0x4B)
    } else if code == "PageDown"@ {
        Some(0x4E)
    } else if code == "ArrowUp"@ {
        Some(0x52)
    } else if code == "ArrowDown"@ {
        Some(0x51)
    } else if code == "ArrowRight"@ {
        Some(0x4F)
    } else if code == "ArrowLeft"@ {
        Some(0x50)
    } else if code == "Numpad0"@ {
        Some(0x62)
    } else if code == "Numpad1"@ {
        Some(0x59)
    } else if code == "Numpad2"@ {
        Some(0x5A)
    } else if code == "Numpad3"@ {
        Some(0x5B)
    } else if code == "Numpad4"@ {
        Some(0x5C)
    } else if code == "Numpad5"@ {
        Some(0x5D)
    } else if code == "Numpad6"@ {
        Some(0x5E)
    } else if code == "Numpad7"@ {
        Some(0x5F)
    } else if code == "Numpad8"@ {
        Some(0x60)
    } else if code == "Numpad9"@ {
        Some(0x61)
    } else if code == "NumpadEnter"@ {
        Some(0x58)
    } else if code == "NumpadAdd"@ {
        Some(0x57)
    } else if code == "NumpadSubtract"@ {
        Some(0x56)
    } else if code == "NumpadMultiply"@ {
        Some(0x55)
    } else if code == "NumpadDivide"@ {
        Some(0x54)
    } else if code == "NumpadDecimal"@ {
        Some(0x63)
    } else {
        None
    }
}

fn named_usage_of(code: &str) -> (r: Option<u8>)
    ensures
        r == named_usage(code@),
{
    if text::same(code, "Enter") {
        Some(0x28)
    } else if text::same(code, "Escape") {
        Some(0x29)
    } else if text::same(code, "Backspace") {
        Some(0x2A)
    } else if text::same(code, "Tab") {
        Some(0x2B)
    } else if text::same(code, "Space") {
        Some(0x2C)
    } else if text::same(code, "CapsLock") {
        Some(0x39)
    } else if text::same(code, "Insert") {
        Some(0x49)
    } else if text::same(code, "Delete") {
        Some(0x4C)
    } else if text::same(code, "Home") {
        Some(0x4A)
    } else if text::same(code, "End") {
        Some(0x4D)
    } else if text::same(code, "PageUp") {
        Some(0x4B)
    } else if text::same(code, "PageDown") {
        Some(0x4E)
    } else if text::same(code, "ArrowUp") {
        Some(0x52)
    } else if text::same(code, "ArrowDown") {
        Some(0x51)
    } else if text::same(code, "ArrowRight") {
        Some(0x4F)
    } else if text::same(code, "ArrowLeft") {
        Some(0x50)
    } else if text::same(code, "Numpad0") {
        Some(0x62)
    } else if text::same(code, "Numpad1") {
        Some(0x59)
    } else if text::same(code, "Numpad2") {
        Some(0x5A)
    } else if text::same(code, "Numpad3") {
        Some(0x5B)
    } else if text::same(code, "Numpad4") {
        Some(0x5C)
    } else if text::same(code, "Numpad5") {
        Some(0x5D)
    } else if text::same(code, "Numpad6") {
        Some(0x5E)
    } else if text::same(code, "Numpad7") {
        Some(0x5F)
    } else if text::same(code, "Numpad8") {
        Some(0x60)
    } else if text::same(code, "Numpad9") {
        Some(0x61)
    } else if text::same(code, "NumpadEnter") {
        Some(0x58)
    } else if text::same(code, "NumpadAdd") {
        Some(0x57)
    } else if text::same(code, "NumpadSubtract") {
        Some(0x56)
    } else if text::same(code, "NumpadMultiply") {
        Some(0x55)
    } else if text::same(code, "NumpadDivide") {
        Some(0x54)
    } else if text::same(code, "NumpadDecimal") {
        Some(0x63)
    } else {
        None
    }
}

/// The usage of the key with a DOM key code: `Key` and a letter, `Digit` and a digit, `F` and
/// a number up to twelve, or a name of its own.
pub open spec fn code_usage(code: Seq<char>) -> Option<u8> {
    match text::behind(code, "Key"@) {
        Some(rest) => if rest.len() == 1 {
            letter_usage(text::lower(rest[0]))
        } else {
            None
        },
        None => match text::behind(code, "Digit"@) {
            Some(rest) => if rest.len() == 1 {
                digit_usage(rest[0])
            } else {
                None
            },
            None => match text::behind(code, "F"@) {
                Some(rest) => match text::parsed(rest, 255) {
                    Some(n) => if 1 <= n <= 12 {
                        Some((0x3A + n - 1) as u8)
                    } else {
                        None
                    },
                    None => None,
                },
                None => named_usage(code),
            },
        },
    }
}

/// The usage of the key with a DOM key code.
pub fn usage_for_code(code: &str) -> (r: Option<u8>)
    ensures
        r == code_usage(code@),
{
    match text::strip_prefix(code, "Key") {
        Some(rest) => {
            let v = text::chars_of(rest.as_str());
            return if v.len() == 1 {
                usage_for_letter(text::lower_char(v[0]))
            } else {
                None
            };
        },
        None => {},
    }
    match text::strip_prefix(code, "Digit") {
        Some(rest) => {
            let v = text::chars_of(rest.as_str());
            return if v.len() == 1 {
                usage_for_digit(v[0])
            } else {
                None
            };
        },
        None => {},
    }
    match text::strip_prefix(code, "F") {
        Some(rest) => match text::parse_number(rest.as_str(), 255) {
            Some(n) => if 1 <= n && n <= 12 {
                Some((0x3A + n - 1) as u8)
            } else {
                None
            },
            None => None,
        },
        None => named_usage_of(code),
    }
}

/// The modifier bit of the key with a DOM key code.
pub open spec fn code_modifier(code: Seq<char>) -> Option<u8> {
    if code == "ControlLeft"@ || code == "ControlRight"@ {
        Some(MOD_CTRL)
    } else if code == "ShiftLeft"@ || code == "ShiftRight"@ {
        Some(MOD_SHIFT)
    } else if code == "AltLeft"@ || code == "AltRight"@ {
        Some(MOD_ALT)
    } else if code == "MetaLeft"@ || code == "MetaRight"@ {
        Some(MOD_META)
    } else {
        None
    }
}

/// The modifier bit of the key with a DOM key code.
pub fn modifier_bit_for_code(code: &str) -> (r: Option<u8>)
    ensures
        r == code_modifier(code@),
{
    if text::same(code, "ControlLeft") || text::same(code, "ControlRight") {
        Some(MOD_CTRL)
    } else if text::same(code, "ShiftLeft") || text::same(code, "ShiftRight") {
        Some(MOD_SHIFT)
    } else if text::same(code, "AltLeft") || text::same(code, "AltRight") {
        Some(MOD_ALT)
    } else if text::same(code, "MetaLeft") || text::same(code, "MetaRight") {
        Some(MOD_META)
    } else {
        None
    }
}

/// Every character that a key types is ASCII, and its key has a usage, which is not zero.
pub proof fn typed_characters_are_ascii(c: char)
    ensures
        key_for(c) matches Some(k) ==> (c as u32) < 0x80 && k.usage != 0,
{
}

/// A capital letter is typed with the key of the small one, with shift.
pub proof fn capitals_share_the_key(c: char)
    requires
        text::is_upper(c),
    ensures
        key_for(c) == shifted(key_for(text::lower(c))->0.usage),
        key_for(text::lower(c)) == plain(key_for(text::lower(c))->0.usage),
{
}

/// The character that the US layout prints on the key with a usage of the keyboard page, with
/// and without shift.
pub open spec fn us_layout(usage: u8, shift: bool) -> Option<char> {
    if 0x04 <= usage <= 0x1D {
        Some(
            (usage - 0x04 + if shift {
                'A' as u32 as int
            } else {
                'a' as u32 as int
            }) as char,
        )
    } else if 0x1E <= usage <= 0x27 {
        Some(
            (if shift {
                "!@#$%^&*()"@
            } else {
                "1234567890"@
            })[usage - 0x1E],
        )
    } else if 0x2D <= usage <= 0x31 {
        Some(
            (if shift {
                "_+{}|"@
            } else {
                "-=[]\\"@
            })[usage - 0x2D],
        )
    } else if 0x33 <= usage <= 0x38 {
        Some(
            (if shift {
                ":\"~<>?"@
            } else {
                ";'`,./"@
            })[usage - 0x33],
        )
    } else if shift {
        None
    } else if usage == 0x28 {
        Some('\n')
    } else if usage == 0x2B {
        Some('\t')
    } else if usage == 0x2C {
        Some(' ')
    } else {
        None
    }
}

/// Whether a character stands on the keyboard: the printable ASCII characters, the ends of a
/// line and the tabulator.
pub open spec fn on_keyboard(c: char) -> bool {
    ||| 0x20 <= c as u32 <= 0x7E
    ||| c == '\n'
    ||| c == '\r'
    ||| c == '\t'
}

/// What is pressed for a character is the key on which the US layout prints it, with shift
/// exactly where the layout asks for it: reading the key back gives the character. The two ends
/// of a line share the Enter key. A character has a key exactly where it stands on the keyboard.
pub proof fn keys_print_their_character(c: char)
    ensures
        key_for(c) is Some <==> on_keyboard(c),
        key_for(c) matches Some(k) ==> us_layout(k.usage, k.shift) == Some(
            if c == '\r' {
                '\n'
            } else {
                c
            },
        ),
{
    reveal_strlit("!@#$%^&*()");
    reveal_strlit("_+{}|");
    reveal_strlit("-=[]\\");
    reveal_strlit(":\"~<>?");
    reveal_strlit(";'`,./");
    if text::is_lower(c) || text::is_upper(c) || text::is_digit(c) {
        lemma_rows_of(c);
    }
}

proof fn lemma_rows_of(c: char)
    ensures
        text::is_lower(c) ==> us_layout(letter_usage(c)->0, false) == Some(c),
        text::is_upper(c) ==> us_layout(letter_usage(text::lower(c))->0, true) == Some(c),
        text::is_digit(c) ==> us_layout(digit_usage(c)->0, false) == Some(c),
{
    reveal_strlit("1234567890");
    if text::is_upper(c) {
        let l = text::lower(c);
        assert(l as u32 == c as u32 + 32);
        assert(letter_usage(l)->0 == 0x04 + (c as u32 - 65));
    }
}

/// Two characters that are typed alike are the same one, but for the two ends of a line.
pub proof fn keys_tell_characters_apart(a: char, b: char)
    requires
        key_for(a) is Some,
        key_for(a) == key_for(b),
    ensures
        a == b || (a == '\n' || a == '\r') && (b == '\n' || b == '\r'),
{
    keys_print_their_character(a);
    keys_print_their_character(b);
}

/// The name that a key of its own has, by its usage on the keyboard page.
pub open spec fn key_name(usage: u8) -> Option<Seq<char>> {
    if usage == 0x28 {
        Some("Enter"@)
    } else if usage == 0x29 {
        Some("Escape"@)
    } else if usage == 0x2A {
        Some("Backspace"@)
    } else if usage == 0x2B {
        Some("Tab"@)
    } else if usage == 0x2C {
        Some("Space"@)
    } else if usage == 0x39 {
        Some("CapsLock"@)
    } else if usage == 0x49 {
        Some("Insert"@)
    } else if usage == 0x4A {
        Some("Home"@)
    } else if usage == 0x4B {
        Some("PageUp"@)
    } else if usage == 0x4C {
        Some("Delete"@)
    } else if usage == 0x4D {
        Some("End"@)
    } else if usage == 0x4E {
        Some("PageDown"@)
    } else if usage == 0x4F {
        Some("ArrowRight"@)
    } else if usage == 0x50 {
        Some("ArrowLeft"@)
    } else if usage == 0x51 {
        Some("ArrowDown"@)
    } else if usage == 0x52 {
        Some("ArrowUp"@)
    } else if usage == 0x54 {
        Some("NumpadDivide"@)
    } else if usage == 0x55 {
        Some("NumpadMultiply"@)
    } else if usage == 0x56 {
        Some("NumpadSubtract"@)
    } else if usage == 0x57 {
        Some("NumpadAdd"@)
    } else if usage == 0x58 {
        Some("NumpadEnter"@)
    } else if 0x59 <= usage <= 0x61 {
        Some("Numpad"@ + seq!["123456789"@[usage - 0x59]])
    } else if usage == 0x62 {
        Some("Numpad0"@)
    } else if usage == 0x63 {
        Some("NumpadDecimal"@)
    } else {
        None
    }
}

proof fn lemma_numpad_names()
    ensures
        "Numpad1"@ == "Numpad"@ + seq!["123456789"@[0]],
        "Numpad2"@ == "Numpad"@ + seq!["123456789"@[1]],
        "Numpad3"@ == "Numpad"@ + seq!["123456789"@[2]],
        "Numpad4"@ == "Numpad"@ + seq!["123456789"@[3]],
        "Numpad5"@ == "Numpad"@ + seq!["123456789"@[4]],
        "Numpad6"@ == "Numpad"@ + seq!["123456789"@[5]],
        "Numpad7"@ == "Numpad"@ + seq!["123456789"@[6]],
        "Numpad8"@ == "Numpad"@ + seq!["123456789"@[7]],
        "Numpad9"@ == "Numpad"@ + seq!["123456789"@[8]],
{
    reveal_strlit("Numpad");
    reveal_strlit("123456789");
    reveal_strlit("Numpad1");
    reveal_strlit("Numpad2");
    reveal_strlit("Numpad3");
    reveal_strlit("Numpad4");
    reveal_strlit("Numpad5");
    reveal_strlit("Numpad6");
    reveal_strlit("Numpad7");
    reveal_strlit("Numpad8");
    reveal_strlit("Numpad9");
    assert("Numpad1"@ =~= "Numpad"@ + seq!["123456789"@[0]]);
    assert("Numpad2"@ =~= "Numpad"@ + seq!["123456789"@[1]]);
    assert("Numpad3"@ =~= "Numpad"@ + seq!["123456789"@[2]]);
    assert("Numpad4"@ =~= "Numpad"@ + seq!["123456789"@[3]]);
    assert("Numpad5"@ =~= "Numpad"@ + seq!["123456789"@[4]]);
    assert("Numpad6"@ =~= "Numpad"@ + seq!["123456789"@[5]]);
    assert("Numpad7"@ =~= "Numpad"@ + seq!["123456789"@[6]]);
    assert("Numpad8"@ =~= "Numpad"@ + seq!["123456789"@[7]]);
    assert("Numpad9"@ =~= "Numpad"@ + seq!["123456789"@[8]]);
}

proof fn lemma_name_begins(usage: u8)
    requires
        key_name(usage) is Some,
    ensures
        text::behind(key_name(usage)->0, "Key"@) is None,
        text::behind(key_name(usage)->0, "Digit"@) is None,
        text::behind(key_name(usage)->0, "F"@) is None,
{
    reveal_strlit("Key");
    reveal_strlit("Digit");
    reveal_strlit("F");
    assert("Key"@[0] == 'K' && "Digit"@[0] == 'D' && "Digit"@[1] == 'i' && "F"@[0] == 'F');
    reveal_strlit("Enter");
    reveal_strlit("Escape");
    reveal_strlit("Backspace");
    reveal_strlit("Tab");
    reveal_strlit("Space");
    reveal_strlit("CapsLock");
    reveal_strlit("Insert");
    reveal_strlit("Home");
    reveal_strlit("PageUp");
    reveal_strlit("Delete");
    reveal_strlit("End");
    reveal_strlit("PageDown");
    reveal_strlit("ArrowRight");
    reveal_strlit("ArrowLeft");
    reveal_strlit("ArrowDown");
    reveal_strlit("ArrowUp");
    reveal_strlit("NumpadDivide");
    reveal_strlit("NumpadMultiply");
    reveal_strlit("NumpadSubtract");
    reveal_strlit("NumpadAdd");
    reveal_strlit("NumpadEnter");
    reveal_strlit("Numpad");
    reveal_strlit("Numpad0");
    reveal_strlit("NumpadDecimal");
    let name = key_name(usage)->0;
    assert(name.len() > 1);
    assert(name[0] != 'K' && name[0] != 'F');
    assert(name[0] != 'D' || name[1] != 'i');
}

/// A key of its own is found by its name, and by no other: the usage that a name leads to is the
/// one that bears the name.
pub proof fn named_keys_are_found(usage: u8, code: Seq<char>)
    ensures
        key_name(usage) == Some(code) ==> code_usage(code) is Some && key_name(
            code_usage(code)->0,
        ) == Some(code),
        named_usage(code) matches Some(u) ==> key_name(u) == Some(code),
{
    lemma_numpad_names();
    if key_name(usage) == Some(code) {
        lemma_name_begins(usage);
        if 0x59 <= usage <= 0x61 {
            let k = usage - 0x59;
            assert(k == 0 || k == 1 || k == 2 || k == 3 || k == 4 || k == 5 || k == 6 || k == 7
                || k == 8);
        }
    }
}

/// The key of a letter or a digit is the same one whether it is struck by its code or typed by
/// its character, and so are those of the space, the ends of a line and the tabulator.
pub proof fn codes_and_characters_share_keys(c: char)
    ensures
        text::is_lower(c) || text::is_upper(c) ==> code_usage("Key"@ + seq![c]) is Some
            && us_layout(code_usage("Key"@ + seq![c])->0, text::is_upper(c)) == Some(c),
        text::is_digit(c) ==> code_usage("Digit"@ + seq![c]) is Some && us_layout(
            code_usage("Digit"@ + seq![c])->0,
            false,
        ) == Some(c),
        code_usage("Space"@) is Some && us_layout(code_usage("Space"@)->0, false) == Some(' '),
        code_usage("Enter"@) is Some && us_layout(code_usage("Enter"@)->0, false) == Some('\n'),
        code_usage("Tab"@) is Some && us_layout(code_usage("Tab"@)->0, false) == Some('\t'),
{
    reveal_strlit("Key");
    reveal_strlit("Digit");
    reveal_strlit("Space");
    reveal_strlit("Enter");
    reveal_strlit("Tab");
    lemma_rows_of(c);
    let k = "Key"@ + seq![c];
    assert(text::is_lower(c) ==> text::lower(c) == c);
    let d = "Digit"@ + seq![c];
    lemma_behind("Key"@, seq![c]);
    lemma_behind("Digit"@, seq![c]);
    assert(d[0] == 'D' && "Key"@[0] == 'K');
    assert(text::behind(d, "Key"@) is None);
    lemma_name_begins(0x2C);
    lemma_name_begins(0x28);
    lemma_name_begins(0x2B);
    reveal_strlit("Escape");
    reveal_strlit("Backspace");
    assert("Escape"@.len() == 6 && "Backspace"@.len() == 9);
    assert("Space"@.len() == 5 && "Enter"@.len() == 5 && "Tab"@.len() == 3);
    assert("Space"@[0] == 'S' && "Enter"@[0] == 'E');
    named_keys_are_found(0x2C, "Space"@);
    named_keys_are_found(0x28, "Enter"@);
    named_keys_are_found(0x2B, "Tab"@);
}

/// The function keys stand one behind the other, from `F1` on.
pub proof fn function_keys_stand_in_order(a: Seq<char>, b: Seq<char>, m: nat, n: nat)
    requires
        text::parsed(a, 255) == Some(m),
        text::parsed(b, 255) == Some(n),
    ensures
        code_usage("F"@ + a) is Some <==> 1 <= m <= 12,
        1 <= m <= 12 && 1 <= n <= 12 ==> code_usage("F"@ + a)->0 - code_usage("F"@ + b)->0 == m
            - n,
        m == 1 ==> code_usage("F"@ + a) == Some(0x3Au8),
{
    reveal_strlit("F");
    reveal_strlit("Key");
    reveal_strlit("Digit");
    lemma_behind("F"@, a);
    lemma_behind("F"@, b);
    assert(("F"@ + a)[0] == 'F' && ("F"@ + b)[0] == 'F');
    assert("Key"@[0] == 'K' && "Digit"@[0] == 'D');
}

proof fn lemma_behind(p: Seq<char>, rest: Seq<char>)
    ensures
        text::behind(p + rest, p) == Some(rest),
{
    assert((p + rest).skip(p.len() as int) =~= rest);
    assert((p + rest).subrange(0, p.len() as int) =~= p);
}

/// The modifiers are the bits of the boot protocol, and each modifier key has the bit of its
/// modifier on either side of the keyboard.
pub proof fn modifiers_are_those_of_the_boot_protocol()
    ensures
        code_modifier("ControlLeft"@) == Some(1u8) && code_modifier("ControlRight"@) == Some(1u8),
        code_modifier("ShiftLeft"@) == Some(2u8) && code_modifier("ShiftRight"@) == Some(2u8),
        code_modifier("AltLeft"@) == Some(4u8) && code_modifier("AltRight"@) == Some(4u8),
        code_modifier("MetaLeft"@) == Some(8u8) && code_modifier("MetaRight"@) == Some(8u8),
        MOD_CTRL == 1 && MOD_SHIFT == 2 && MOD_ALT == 4 && MOD_META == 8,
        BTN_LEFT == 1 && BTN_RIGHT == 2 && BTN_MIDDLE == 4,
{
    reveal_strlit("ControlLeft");
    reveal_strlit("ControlRight");
    reveal_strlit("ShiftLeft");
    reveal_strlit("ShiftRight");
    reveal_strlit("AltLeft");
    reveal_strlit("AltRight");
    reveal_strlit("MetaLeft");
    reveal_strlit("MetaRight");
    assert("ControlLeft"@[0] == 'C' && "ControlRight"@[0] == 'C');
    assert("ShiftLeft"@[0] == 'S' && "ShiftRight"@[0] == 'S');
    assert("AltLeft"@[0] == 'A' && "AltRight"@[0] == 'A');
    assert("MetaLeft"@[0] == 'M' && "MetaRight"@[0] == 'M');
}

/// A movement that fits in a report is kept; a larger one keeps its direction and is as long as
/// a report can hold.
pub proof fn movements_keep_their_direction(v: int)
    ensures
        -127 <= clamped(v) <= 127,
        -127 <= v <= 127 ==> clamped(v) == v,
        v > 127 ==> clamped(v) == 127,
        v < -127 ==> clamped(v) == -127,
{
}

/// A keyboard report is sent as the boot protocol has it: eight bytes, of which the first holds
/// the modifiers, the second nothing, and the others the keys.
pub proof fn keyboard_reports_read_back(r: KeyboardReport, i: int)
    requires
        0 <= i < 6,
    ensures
        r.wire().len() == 8,
        r.wire()[0] == r.modifiers,
        r.wire()[1] == r.reserved,
        r.wire()[2 + i] == r.keys[i],
{
}

} // verus!
