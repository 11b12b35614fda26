//! Text as keys.
use phonebridge::integrations::hid_report::EncodedChar;
use phonebridge::integrations::text_encoder::encode_ascii_text;

#[test]
fn ascii_roundtrip_is_fully_encodable() {
    let enc = encode_ascii_text("Hello, World! 123");
    assert!(enc.unencodable_positions.is_empty());
    assert_eq!(enc.chars.len(), 17);
    assert_eq!(enc.char_count, 17);
    assert_eq!(enc.byte_count, "Hello, World! 123".len());
}

#[test]
fn chinese_and_emoji_are_unencodable_with_positions() {
    let text = "a中文😀b";
    let enc = encode_ascii_text(text);
    // '中' 是第 1 个 UTF-16 单元，'文' 第 2，'😀'(代理对) 第 3、4
    assert_eq!(enc.unencodable_positions, vec![1, 2, 3]);
    assert_eq!(enc.char_count, 6); // a 中 文 😀 b → 1+1+1+2+1
    assert_eq!(enc.chars.len(), 2); // 只有 a 和 b 可编码
}

#[test]
fn newline_and_tab_are_encodable() {
    let enc = encode_ascii_text("a\nb\tc");
    assert!(enc.unencodable_positions.is_empty());
    assert_eq!(enc.chars.len(), 5);
}

#[test]
fn shift_chars_are_marked() {
    let enc = encode_ascii_text("A!");
    assert_eq!(
        enc.chars,
        vec![
            EncodedChar {
                usage: 0x04,
                shift: true
            },
            EncodedChar {
                usage: 0x1E,
                shift: true
            },
        ]
    );
}

#[test]
fn empty_text() {
    let enc = encode_ascii_text("");
    assert!(enc.chars.is_empty());
    assert!(enc.unencodable_positions.is_empty());
    assert_eq!(enc.char_count, 0);
}
