//! The Bluetooth controller of macOS.
use phonebridge::integrations::hid_adapter::{
    create_hid_controller, probe_ble_capabilities, HidControllerKind, IHidController,
    StubHidAdapter, WinRtHidAdapter,
};
use phonebridge::integrations::macos_hid::{
    apply_native_status, compact_advertised_name, native_status_error, new_macos_link,
    send_result, start_result, NativeStatus,
};
use phonebridge::integrations::{AdapterError, HostPlatform};

#[test]
fn compacts_chinese_name_without_splitting_utf8() {
    assert_eq!(compact_advertised_name("快投屏"), "快投");
}

#[test]
fn preserves_short_ascii_and_utf8_names_and_falls_back_for_empty_name() {
    assert_eq!(compact_advertised_name("KTP"), "KTP");
    assert_eq!(compact_advertised_name("😀😀"), "😀😀");
    assert_eq!(compact_advertised_name(""), "KTP");
}

#[test]
fn reports_authorization_separately_from_manager_state() {
    let message = native_status_error(0, 0, 3, 0).expect("Unknown state should be diagnosed");
    assert!(message.contains("Unknown"));
    assert!(message.contains("始终允许"));
}

#[test]
fn reports_service_failure_after_power_on() {
    let message =
        native_status_error(-20, 5, 3, 14).expect("service failure should be diagnosed");
    assert!(message.contains("发布 HOGP GATT 服务失败"));
    assert!(message.contains("CoreBluetooth 错误码 14"));
    assert!(message.contains("PoweredOn"));
}

#[test]
fn reports_pending_permission_even_when_advertising_reported_success() {
    // macOS 上授权「未确定」时 CoreBluetooth 仍会回调广播成功（PoweredOn，
    // error_code=0 → 但桥接层专门用 -30 上报假成功）。
    let message =
        native_status_error(-30, 5, 0, 0).expect("permission pending must be diagnosed");
    assert!(message.contains("权限尚未确认"));
    assert!(message.contains("未确定"));
    assert!(message.contains("射频不会真正发包"));
}

#[test]
fn names_fit_into_an_advertisement() {
    for name in ["快投屏", "KTP", "a long name of a computer", "😀😀😀😀"] {
        let short = compact_advertised_name(name);
        assert!(short.len() <= 8, "{short}");
        assert!(name.starts_with(&short));
    }
}

#[test]
fn the_native_status_decides_control() {
    let mut link = new_macos_link(Some("Mac mini".into()));
    assert_eq!(link.pairing_name.as_deref(), Some("Mac mini"));
    let status = |connected| NativeStatus {
        powered_on: true,
        advertising: true,
        connected,
        subscribed: connected,
        input_report_mask: 3,
        error_code: 0,
        manager_state: 5,
        authorization: 3,
        native_error_code: 0,
    };
    apply_native_status(&mut link, status(true));
    assert!(link.connected && link.subscribed);
    apply_native_status(&mut link, status(false));
    assert!(!link.connected);
}

#[test]
fn results_of_native_calls_are_reported() {
    assert!(send_result(0, "x", &None).is_ok());
    assert!(send_result(-1, "x", &Some("Mac".into())).is_err());
    assert!(start_result(true, 0, &None).is_ok());
    assert!(start_result(false, 0, &None).is_err());
    assert!(start_result(true, -1, &None).is_err());
    assert!(native_status_error(0, 5, 3, 0).is_none());
}

#[test]
fn each_platform_has_its_controller() {
    assert_eq!(create_hid_controller(HostPlatform::Windows), HidControllerKind::WinRt);
    assert_eq!(create_hid_controller(HostPlatform::MacOs), HidControllerKind::MacOs);
    assert_eq!(create_hid_controller(HostPlatform::Other), HidControllerKind::Stub);
    let mut stub = StubHidAdapter::new(HostPlatform::Other);
    assert!(matches!(
        stub.start_advertising(),
        Err(AdapterError::UnsupportedPlatform(_)) | Err(AdapterError::PendingRealDeviceValidation(_))
    ));
    let mut win = WinRtHidAdapter::new();
    win.set_peripheral(false, None);
    assert!(matches!(
        win.start_advertising(),
        Err(AdapterError::PeripheralUnsupported)
    ));
    assert!(!probe_ble_capabilities(HostPlatform::Windows, (false, None)).0);
    assert!(probe_ble_capabilities(HostPlatform::Windows, (true, None)).0);
}
