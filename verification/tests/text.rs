//! Texts.
use phonebridge::text;

#[test]
fn white_space_is_that_of_unicode() {
    for n in 0..=0x10_ffff_u32 {
        if let Some(c) = char::from_u32(n) {
            assert_eq!(text::is_white_space(c), c.is_whitespace(), "{n:x}");
        }
    }
}

#[test]
fn classes_of_characters_are_those_of_ascii() {
    for n in 0..0x300_u32 {
        let c = char::from_u32(n).unwrap();
        assert_eq!(text::digit(c), c.is_ascii_digit());
        assert_eq!(text::alphanumeric(c), c.is_ascii_alphanumeric());
        assert_eq!(text::hex_digit(c), c.is_ascii_hexdigit());
        assert_eq!(text::punctuation(c), c.is_ascii_punctuation());
        assert_eq!(text::lower_char(c), c.to_ascii_lowercase());
        assert_eq!(text::upper_char(c), c.to_ascii_uppercase());
    }
}

const SAMPLES: [&str; 9] = [
    "",
    " ",
    "plain",
    "  padded\t",
    "two words",
    "a\nb\r\nc\n",
    "\u{3000}宽\u{a0}",
    "é✅ emoji 😀",
    "a,,b,",
];

#[test]
fn cutting_works_as_for_str() {
    for s in SAMPLES {
        assert_eq!(text::trim(s), s.trim());
        assert_eq!(text::trim_start(s), s.trim_start());
        assert_eq!(text::words(s), s.split_whitespace().collect::<Vec<_>>());
        assert_eq!(text::lines(s), s.lines().collect::<Vec<_>>());
        assert_eq!(text::split_char(s, ','), s.split(',').collect::<Vec<_>>());
        assert_eq!(text::split_text(s, "wo"), s.split("wo").collect::<Vec<_>>());
        assert_eq!(
            text::split_once(s, ','),
            s.split_once(',').map(|(a, b)| (a.to_string(), b.to_string()))
        );
        assert_eq!(
            text::strip_prefix(s, "pl").as_deref(),
            s.strip_prefix("pl")
        );
        assert_eq!(text::starts_with(s, "a"), s.starts_with('a'));
        assert_eq!(text::ends_with(s, ","), s.ends_with(','));
        assert_eq!(text::contains(s, "o"), s.contains('o'));
        assert_eq!(text::replace(s, "a", "[a]"), s.replace('a', "[a]"));
        assert_eq!(text::byte_len(s), s.len());
        assert_eq!(text::take_chars(s, 3), s.chars().take(3).collect::<String>());
        assert_eq!(text::ascii_lower(s), s.to_ascii_lowercase());
    }
    assert_eq!(text::after_last("a/b/c", '/'), "c");
    assert_eq!(text::after_last("plain", '/'), "plain");
    assert_eq!(text::replace("aaa", "aa", "b"), "aaa".replace("aa", "b"));
}

#[test]
fn cutting_by_bytes_keeps_whole_characters() {
    assert_eq!(text::take_last_bytes("快投屏", 7), "投屏");
    assert_eq!(text::take_first_bytes("快投屏", 7), "快投");
    assert_eq!(text::take_last_bytes("abc", 3), "abc");
    assert_eq!(text::take_first_bytes("abc", 0), "");
}

#[test]
fn numbers_are_read_and_written_as_std_does() {
    for n in [0_u64, 7, 10, 999, u32::MAX as u64, u64::MAX] {
        assert_eq!(text::decimal(n), n.to_string());
        assert_eq!(text::parse_number(&n.to_string(), u64::MAX), Some(n));
    }
    assert_eq!(text::decimal_signed(i64::MIN), i64::MIN.to_string());
    assert_eq!(text::decimal_signed(-1), "-1");
    assert_eq!(text::hex_text(0xbeef, 6, false), "00beef");
    assert_eq!(text::hex_text(0xbeef, 2, true), "EF");
    for s in ["", "+", "+5", "-5", "5x", "65536", "65535", " 5"] {
        assert_eq!(
            text::parse_number(s, u16::MAX as u64),
            s.parse::<u16>().ok().map(u64::from),
            "{s}"
        );
        assert_eq!(
            text::parse_hex(s, u16::MAX as u64),
            u16::from_str_radix(s, 16).ok().map(u64::from),
            "{s}"
        );
    }
}

#[test]
fn texts_are_ordered_as_std_orders_them() {
    for a in SAMPLES {
        for b in SAMPLES {
            assert_eq!(text::comes_before(a, b), a < b, "{a:?} {b:?}");
            assert_eq!(text::same(a, b), a == b);
            assert_eq!(
                text::same_ignoring_case(a, b),
                a.eq_ignore_ascii_case(b)
            );
        }
    }
}
