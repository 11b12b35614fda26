//! Control of an iPhone over USB.
use phonebridge::integrations::ios_usb_control::{
    iproxy_forward_spec, map_absolute_point, parse_loopback_url, webdriver_key_value,
};
use phonebridge::integrations::wda_requests::{wda_keys_payload, ScreenSize, WDA_TEXT_FREQUENCY};
use phonebridge::json::{write_json, JsonValue};

#[test]
fn absolute_mapping_preserves_endpoints() {
    let source = ScreenSize {
        width: 480,
        height: 1040,
    };
    let target = ScreenSize {
        width: 393,
        height: 852,
    };
    assert_eq!(map_absolute_point(source, target, 0, 0), Some((0, 0)));
    assert_eq!(
        map_absolute_point(source, target, 479, 1039),
        Some((392, 851))
    );
}

#[test]
fn absolute_mapping_clamps_out_of_range_points() {
    let size = ScreenSize {
        width: 100,
        height: 200,
    };
    assert_eq!(map_absolute_point(size, size, 1000, 1000), Some((99, 199)));
    assert_eq!(
        map_absolute_point(
            size,
            ScreenSize {
                width: 0,
                height: 1
            },
            0,
            0
        ),
        None
    );
}

#[test]
fn only_loopback_wda_urls_are_accepted() {
    assert!(parse_loopback_url("http://127.0.0.1:8100").is_ok());
    assert!(parse_loopback_url("http://localhost:8100/").is_ok());
    assert!(parse_loopback_url("http://[::1]:8100").is_ok());
    assert!(parse_loopback_url("https://127.0.0.1:8100").is_err());
    assert!(parse_loopback_url("http://192.168.1.8:8100").is_err());
}

#[test]
fn webdriver_special_and_printable_keys_are_mapped() {
    assert_eq!(
        webdriver_key_value("Enter", "Enter"),
        Some("\u{E007}".into())
    );
    assert_eq!(
        webdriver_key_value("ArrowLeft", "ArrowLeft"),
        Some("\u{E012}".into())
    );
    assert_eq!(webdriver_key_value("KeyA", "a"), Some("a".into()));
    assert_eq!(webdriver_key_value("Unknown", "中文"), None);
}

#[test]
fn iproxy_uses_current_single_forward_spec() {
    assert_eq!(iproxy_forward_spec(49152, 8100), "49152:8100");
}

#[test]
fn wda_keys_payload_preserves_mixed_unicode_text() {
    let payload = wda_keys_payload("Hello，世界 123🙂");
    match payload.get("value") {
        Some(JsonValue::Array(items)) => {
            assert_eq!(items[0].as_str(), Some("Hello，世界 123🙂"));
        }
        _ => panic!("no list"),
    }
    assert!(matches!(
        payload.get("frequency"),
        Some(JsonValue::Integer(n)) if *n == WDA_TEXT_FREQUENCY as i128
    ));
    let written: serde_json::Value = serde_json::from_str(&write_json(&payload)).unwrap();
    assert_eq!(written["value"][0], "Hello，世界 123🙂");
    assert_eq!(written["frequency"], WDA_TEXT_FREQUENCY);
}
