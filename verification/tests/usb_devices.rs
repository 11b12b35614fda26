//! Phones on USB.
use phonebridge::integrations::usb_devices::{
    adb_vendor, list_android, list_ios_go_ios, list_ios_idevice_id, list_ios_profiler_output,
    list_ios_system_profiler,
    mask_id, merge_device, parse_adb_raw, parse_devicectl_json, parse_go_ios_list_output,
    parse_idevice_id_output, parse_xcdevice_json, resolve_ios_raw_id, UsbDevice, UsbDeviceKind,
    UsbScan, UsbSource,
};
use phonebridge::integrations::{tool_run, AdapterError};

fn iphone(id: &str) -> UsbDevice {
    UsbDevice {
        kind: UsbDeviceKind::Iphone,
        name: "iPhone".into(),
        id_masked: mask_id(id),
        raw_id: id.into(),
        state: "connected".into(),
    }
}

#[test]
fn parses_adb_devices_table() {
    let out = "List of devices attached\n0123456789ABCDEF\tdevice\nGHIJKLMN\tunauthorized\n";
    let raw = parse_adb_raw(out);
    assert_eq!(raw.len(), 2);
    assert_eq!(
        raw[0],
        ("0123456789ABCDEF".to_string(), "device".to_string())
    );
    assert_eq!(raw[1], ("GHIJKLMN".to_string(), "unauthorized".to_string()));
}

#[test]
fn adb_vendor_extraction() {
    let out = "List of devices attached\n0123456789ABCDEF       device product:model model:SM_G998B device:SM_G998B\n";
    assert_eq!(adb_vendor(out, "0123456789ABCDEF"), Some("SM_G998B".into()));
}

#[test]
fn parses_devicectl_json() {
    let raw = r#"{
        "result": {
            "devices": [
                { "name": "iPhone 15", "identifier": "ABC-123", "connectionType": "USB", "state": "connected", "model": "iPhone 15 Pro" },
                { "name": "iPhone 16 Sim", "identifier": "DEF-456", "connectionType": "Network", "state": "booted" },
                { "name": "iPhone 17", "identifier": "GHI-789", "connectionType": "USB", "state": "connected", "model": "iPhone 17" }
            ]
        }
    }"#;
    let devs = parse_devicectl_json(raw);
    // 只保留 USB 连接的两台，排除 Network 模拟器
    assert_eq!(devs.len(), 2);
    assert!(devs.iter().all(|d| d.kind == UsbDeviceKind::Iphone));
    assert!(devs[0].name.contains("iPhone 15 Pro"));
    assert_eq!(devs[0].raw_id, "ABC-123");
}

#[test]
fn missing_fields_are_skipped() {
    let raw = r#"{"result":{"devices":[{"name":"x"}]}}"#;
    assert!(parse_devicectl_json(raw).is_empty());
}

#[test]
fn parses_current_nested_devicectl_json() {
    let raw = r#"{
        "result": {
            "devices": [
                {
                    "identifier": "CORE-1",
                    "deviceProperties": {"name": "My iPhone", "bootState": "booted"},
                    "hardwareProperties": {"marketingName": "iPhone 16", "reality": "physical", "udid": "UDID-1"},
                    "connectionProperties": {"transportType": "wired", "pairingState": "paired"}
                },
                {
                    "identifier": "CORE-2",
                    "deviceProperties": {"name": "Network iPhone", "bootState": "booted"},
                    "hardwareProperties": {"marketingName": "iPhone 16", "reality": "physical", "udid": "UDID-2"},
                    "connectionProperties": {"transportType": "wifi", "pairingState": "paired"}
                },
                {
                    "identifier": "CORE-3",
                    "deviceProperties": {"name": "Simulator", "bootState": "booted"},
                    "hardwareProperties": {"marketingName": "iPhone 16", "reality": "simulator", "udid": "UDID-3"},
                    "connectionProperties": {"transportType": "wired", "pairingState": "paired"}
                }
            ]
        }
    }"#;
    let devs = parse_devicectl_json(raw);
    assert_eq!(devs.len(), 1);
    assert_eq!(devs[0].raw_id, "UDID-1");
    assert_eq!(devs[0].state, "connected");
    assert!(devs[0].name.contains("iPhone 16"));
}

#[test]
fn keeps_wired_unpaired_device_for_trust_prompt() {
    let raw = r#"{
        "result": {
            "devices": [{
                "identifier": "CORE-UNPAIRED",
                "deviceProperties": {"name": "New iPhone"},
                "hardwareProperties": {
                    "reality": "physical",
                    "udid": "UDID-UNPAIRED"
                },
                "connectionProperties": {
                    "transportType": "wired",
                    "pairingState": "unpaired"
                }
            }]
        }
    }"#;
    let devs = parse_devicectl_json(raw);
    assert_eq!(devs.len(), 1);
    assert_eq!(devs[0].state, "unauthorized");
}

#[test]
fn keeps_booted_physical_device_when_transport_is_missing() {
    let raw = r#"{
        "result": {
            "devices": [{
                "identifier": "CORE-BOOTED",
                "deviceProperties": {"name": "Booted iPhone", "bootState": "booted"},
                "hardwareProperties": {
                    "reality": "physical",
                    "udid": "UDID-BOOTED"
                },
                "connectionProperties": {"pairingState": "paired"}
            }]
        }
    }"#;
    let devs = parse_devicectl_json(raw);
    assert_eq!(devs.len(), 1);
    assert_eq!(devs[0].state, "connected");
}

#[test]
fn parses_xcdevice_usb_physical_device_only() {
    let raw = r#"[
        {
            "simulator": true,
            "available": true,
            "platform": "com.apple.platform.iphonesimulator",
            "identifier": "SIMULATOR",
            "name": "iPhone Simulator"
        },
        {
            "simulator": false,
            "available": true,
            "platform": "com.apple.platform.iphoneos",
            "interface": "usb",
            "identifier": "UDID-USB",
            "name": "iPhone 16"
        },
        {
            "simulator": false,
            "available": true,
            "platform": "com.apple.platform.iphoneos",
            "interface": "network",
            "identifier": "UDID-WIFI",
            "name": "iPhone Wi-Fi"
        }
    ]"#;
    let devs = parse_xcdevice_json(raw);
    assert_eq!(devs.len(), 1);
    assert_eq!(devs[0].raw_id, "UDID-USB");
    assert_eq!(devs[0].state, "connected");
}

#[test]
fn parses_idevice_id_lines_and_rejects_diagnostics() {
    let ids = parse_idevice_id_output(
        "ABC-123\n\n  DEF_456  \nidevice_id: no device found\nUDID with spaces\n",
    );
    assert_eq!(ids, vec!["ABC-123", "DEF_456"]);
}

#[test]
fn parses_go_ios_device_list_json() {
    let ids = parse_go_ios_list_output(
        r#"{"deviceList":["ABC-123", "ABC-123"], "ignored":"not-a-device"}"#,
    );
    assert_eq!(ids, vec!["ABC-123"]);

    let ids =
        parse_go_ios_list_output(r#"{"devices":[{"properties":{"serialNumber":"DEF_456"}}]}"#);
    assert_eq!(ids, vec!["DEF_456"]);
}

#[test]
fn mask_id_keeps_tail() {
    assert_eq!(mask_id("0123456789ABCDEF"), "***CDEF");
    assert_eq!(mask_id("abc"), "****");
    assert_eq!(mask_id(""), "****");
}

#[test]
fn other_sources_are_asked_only_while_no_iphone_is_found() {
    let mut scan = UsbScan::new();
    let mut asked = Vec::new();
    while let Some(source) = scan.next {
        asked.push(source);
        match source {
            UsbSource::Xcdevice => scan.answer(Ok(vec![iphone("0123456789ABCDEF")])),
            UsbSource::Devicectl => scan.answer(Err(AdapterError::Failed("no xcode".into()))),
            _ => scan.answer(Ok(vec![])),
        }
    }
    assert_eq!(
        asked,
        vec![
            UsbSource::Devicectl,
            UsbSource::SystemProfiler,
            UsbSource::Xcdevice,
            UsbSource::Android
        ]
    );
    assert_eq!(scan.devices.len(), 1);
    assert!(scan.notes.is_empty());

    let mut scan = UsbScan::new();
    let mut asked = Vec::new();
    while let Some(source) = scan.next {
        asked.push(source);
        if source == UsbSource::Android {
            scan.adb_not_located("nowhere");
        } else {
            scan.answer(Err(AdapterError::Failed("x".into())));
        }
    }
    assert_eq!(asked.len(), 6);
    assert!(scan.notes.iter().any(|n| n == "Android（adb 定位）：nowhere"));
    assert!(scan.notes.len() > 1);
}

#[test]
fn a_phone_is_listed_once() {
    let mut devices = vec![iphone("0123456789ABCDEF")];
    merge_device(&mut devices, iphone("0123456789ABCDEF"));
    assert_eq!(devices.len(), 1);
    merge_device(&mut devices, iphone("FEDCBA9876543210"));
    assert_eq!(devices.len(), 2);
}

#[test]
fn masks_show_four_characters_at_most() {
    for id in ["0123456789ABCDEF", "快投屏快投屏", "abcd", "abcde"] {
        let m = mask_id(id);
        assert!(m.starts_with("***"));
        assert!(m.trim_start_matches('*').len() <= 4, "{m}");
    }
}

#[test]
fn raw_identifiers_are_found_by_their_mask() {
    let devices = vec![iphone("0123456789ABCDEF"), iphone("FEDCBA9876543210")];
    assert_eq!(resolve_ios_raw_id(&devices, "***CDEF").unwrap(), "0123456789ABCDEF");
    assert!(resolve_ios_raw_id(&devices, "***0000").is_err());
}

#[test]
fn tools_that_fail_are_reported() {
    let bad = || Some(Ok(tool_run(false, "exit status: 1", b"", b"broken")));
    assert!(list_ios_idevice_id(bad()).is_err());
    assert!(list_ios_go_ios(bad()).is_err());
    assert!(list_ios_idevice_id(None).is_err());
    let good = Some(Ok(tool_run(true, "exit status: 0", b"ABC-123\n", b"")));
    let found = list_ios_idevice_id(good).unwrap();
    assert_eq!(found[0].raw_id, "ABC-123");
    assert!(list_android("/adb", false, Err("x".into()), "").is_err());
    let basic = Ok(tool_run(
        true,
        "exit status: 0",
        b"List of devices attached\n0123456789ABCDEF\tdevice\n",
        b"",
    ));
    let found = list_android(
        "/adb",
        true,
        basic,
        "List of devices attached\n0123456789ABCDEF device model:SM_G998B\n",
    )
    .unwrap();
    assert_eq!(found[0].kind, UsbDeviceKind::Android);
    assert!(found[0].name.contains("SM_G998B"));
}

#[test]
fn the_profiler_lists_phones_at_any_depth() {
    let raw = r#"{"SPUSBDataType":[{"_name":"bus","_items":[{"_name":"iPhone","serial_num":"0123456789ABCDEF"},{"_name":"Mouse","serial_num":"x"}]}]}"#;
    let found = list_ios_system_profiler(raw);
    assert_eq!(found.len(), 1);
    assert_eq!(found[0].raw_id, "0123456789ABCDEF");
    assert!(list_ios_system_profiler("no json").is_empty());
    assert_eq!(list_ios_profiler_output(raw.as_bytes().to_vec()).len(), found.len());
    assert!(list_ios_profiler_output(vec![0xff]).is_empty());
}

#[test]
fn a_whole_discovery_lists_masked_devices_and_ends_with_what_failed() {
    let failed = || Err(AdapterError::Failed("no".into()));
    let mut scan = UsbScan::new();
    scan.answer(failed());
    scan.answer(Ok(Vec::new()));
    scan.answer(failed());
    assert!(scan.devices.is_empty());
    scan.answer(list_ios_idevice_id(Some(Ok(tool_run(
        true,
        "exit status: 0",
        b"00008030-001A2B3C4D5E6F70\n\n",
        b"",
    )))));
    assert_eq!(scan.next, Some(UsbSource::Android));
    assert_eq!(scan.devices.len(), 1);
    scan.answer(failed());
    assert_eq!(scan.next, None);
    assert_eq!(scan.devices.len(), 1);
    for d in &scan.devices {
        assert!(!d.raw_id.is_empty());
        assert_eq!(d.id_masked, mask_id(&d.raw_id));
    }
    assert_eq!(
        scan.notes.last().map(String::as_str),
        Some("Android（adb 设备枚举）：操作失败：no")
    );
    // A discovery that is over takes nothing more.
    scan.adb_not_located("late");
    scan.answer(failed());
    assert_eq!(scan.notes.len(), 1);
}
