//! The overview of the environment.
use phonebridge::commands::capabilities::{check_capabilities, CapabilityProbes};
use phonebridge::commands::diagnostics::{export_diagnostics as answer_export, get_diagnostics};
use phonebridge::integrations::adb::parse_adb_devices;
use phonebridge::integrations::diagnostics::{
    export_diagnostics, export_file_name, list_interfaces, mask_ipv4, mask_mac,
    meets_windows_minimum, os_version_string, probe_mdns, AndroidProbes, DependencyState,
    EnvironmentProbes, ExportStep, InterfaceAddress, MdnsOutcome,
};
use phonebridge::integrations::AdapterError;
use phonebridge::session::manager::SessionRegistry;

#[test]
fn masks_ipv4() {
    assert_eq!(mask_ipv4("192.168.1.23"), "192.168.*.*");
    assert_eq!(mask_ipv4("10.0.0.7"), "10.0.*.*");
    assert_eq!(mask_ipv4("garbage"), "*.*.*.*");
}

#[test]
fn masks_mac() {
    assert_eq!(mask_mac("AA:BB:CC:DD:EE:FF"), "AA:BB:CC:XX:XX:XX");
    assert_eq!(mask_mac("11-22-33-44-55-66"), "11:22:33:XX:XX:XX");
    assert_eq!(mask_mac("not-a-mac"), "XX:XX:XX:XX:XX:XX");
}

#[test]
fn windows_minimum_rule() {
    assert!(!meets_windows_minimum(None));
    assert!(!meets_windows_minimum(Some(19041 - 1)));
    assert!(meets_windows_minimum(Some(19041)));
    assert!(meets_windows_minimum(Some(26100)));
}

#[test]
fn dependency_state_shapes() {
    let ok = DependencyState::ok("fine");
    assert_eq!(ok.status, "ok");
    assert_eq!(DependencyState::missing("x").status, "missing");
    assert_eq!(DependencyState::unsupported("x").status, "unsupported");
    assert_eq!(DependencyState::unknown("x").status, "unknown");
}

fn android(adb: bool, ffmpeg: bool, server: bool) -> AndroidProbes {
    AndroidProbes {
        ffmpeg: if ffmpeg { Some("/bin/ffmpeg".into()) } else { None },
        scrcpy_server: if server { Some("/srv".into()) } else { None },
        adb_missing: if adb { None } else { Some("未找到 adb".into()) },
        devices: Ok(parse_adb_devices(
            "List of devices attached\n0123456789ABCDEF\tdevice\nGHIJKLMN\tunauthorized\n",
        )),
    }
}

fn capability_probes(platform: &str, android: AndroidProbes) -> CapabilityProbes {
    CapabilityProbes {
        platform: platform.into(),
        os_version: "1".into(),
        os_build: None,
        app_version: "1".into(),
        tauri_version: "2".into(),
        resources: "/res".into(),
        interface_count: 3,
        primary_ip: Some("192.168.1.23".into()),
        mdns: MdnsOutcome::Resolved,
        ble: (true, None, None),
        uxplay: (false, None, "missing".into()),
        android,
    }
}

#[test]
fn capabilities_follow_what_was_found() {
    let r = check_capabilities(capability_probes("linux", android(true, true, true))).unwrap();
    assert!(r.network.available);
    assert_eq!(r.network.primary_ip_masked.as_deref(), Some("192.168.*.*"));
    assert_eq!(r.network.error, None);
    assert_eq!(r.mirror.status, "missing");
    assert_eq!(r.mirror.detail, "missing");
    assert_eq!(r.mirror.expected_path, "/res/binaries");
    let mut probes = capability_probes("Windows", android(true, true, true));
    probes.resources = "C:\\res".into();
    let w = check_capabilities(probes).unwrap();
    assert_eq!(w.mirror.expected_path, "C:\\res\\binaries");
    assert_eq!(r.android.authorized_devices, vec!["01****CDEF:device".to_string()]);
    assert_eq!(r.android.detail, "adb、scrcpy-server 与 ffmpeg 就绪");
    assert!(r.clipboard);
    assert!(r.windows_target.is_none());

    let r = check_capabilities(capability_probes("linux", android(true, false, true))).unwrap();
    assert_eq!(r.android.detail, "adb 就绪，但未找到 ffmpeg（投屏解码依赖）");
    let r = check_capabilities(capability_probes("linux", android(true, true, false))).unwrap();
    assert_eq!(r.android.detail, "adb 就绪，但未找到匹配的 scrcpy-server");
    let r = check_capabilities(capability_probes("linux", android(false, true, true))).unwrap();
    assert!(!r.android.adb_available && !r.android.ffmpeg_available);
    assert_eq!(r.android.detail, "未找到 adb");
    assert!(r.android.authorized_devices.is_empty());
}

#[test]
fn capabilities_of_windows_name_the_build() {
    let mut p = capability_probes("windows", android(true, true, true));
    p.primary_ip = None;
    p.uxplay = (true, Some("1.73".into()), "/x".into());
    let r = check_capabilities(p).unwrap();
    let w = r.windows_target.unwrap();
    assert_eq!((w.min_build, w.current_build, w.meets_minimum), (19041, 0, false));
    assert_eq!(r.network.error.as_deref(), Some("未探测到主网络接口"));
    assert_eq!(r.mirror.detail, "UxPlay 就位（端口 6000）");
}

fn probes() -> EnvironmentProbes {
    EnvironmentProbes {
        generated_at: "2024-01-01T00:00:00+00:00".into(),
        app_version: "1".into(),
        tauri_version: "2".into(),
        rust_version: "3".into(),
        os_family: "linux".into(),
        os_version: "x".into(),
        os_build: Some(26100),
        interfaces: Ok(vec![InterfaceAddress {
            name: "en0".into(),
            ip: "192.168.1.23".into(),
            is_ipv4: true,
        }]),
        mdns: MdnsOutcome::Resolved,
        ble: (true, None, None),
        uxplay: (true, None, "/x".into()),
        android: android(true, true, true),
    }
}

#[test]
fn overviews_hold_masked_addresses() {
    let reg = SessionRegistry::new("/res".into());
    let r = get_diagnostics(&reg, probes());
    assert_eq!(r.source, "live");
    assert_eq!(r.mirror.port, 6000);
    assert_eq!(r.mirror.uxplay.detail, "已就位：版本 未登记");
    assert_eq!(
        r.network.interfaces[0].ipv4_masked.as_deref(),
        Some("192.168.*.*")
    );
    assert!(r.os.meets_minimum);
    assert_eq!(
        r.security.capabilities,
        vec![
            "core:default",
            "dialog:default",
            "shell:allow-execute(binaries/uxplay)"
        ]
    );
    assert!(r.mirror.android.detail.starts_with("2 台设备（"));
}

#[test]
fn interfaces_that_cannot_be_listed_are_shown_as_such() {
    let r = list_interfaces(&Err("denied".into()));
    assert_eq!(r.len(), 1);
    assert_eq!(r[0].ipv4_masked, None);
}

#[test]
fn exports_say_where_they_are_or_what_failed() {
    assert_eq!(
        export_file_name("20240101-000000"),
        "phonebridge-diagnostics-20240101-000000.json"
    );
    let ok = answer_export(export_diagnostics("/d/f.json", None));
    assert!(ok.ok);
    assert_eq!(ok.path.as_deref(), Some("/d/f.json"));
    assert_eq!(ok.items.len(), 8);
    for (step, text) in [
        (ExportStep::MakeDirectory, "操作失败：创建诊断目录失败: why"),
        (ExportStep::Serialize, "操作失败：序列化诊断报告失败: why"),
        (ExportStep::Write, "操作失败：写入诊断包失败: why"),
    ] {
        let r = answer_export(export_diagnostics("/d/f.json", Some((step, "why".into()))));
        assert!(!r.ok);
        assert_eq!(r.path, None);
        assert_eq!(r.error.as_deref(), Some(text));
    }
}

#[test]
fn every_failure_has_its_own_code() {
    let all = [
        AdapterError::DependencyMissing("x".into()),
        AdapterError::UnsupportedPlatform("x".into()),
        AdapterError::PendingRealDeviceValidation("x".into()),
        AdapterError::PeripheralUnsupported,
        AdapterError::IosUsbUnavailable("x".into()),
        AdapterError::Failed("x".into()),
        AdapterError::ControlInactive("x".into()),
        AdapterError::Busy("x".into()),
    ];
    for (i, a) in all.iter().enumerate() {
        for (j, b) in all.iter().enumerate() {
            assert_eq!(a.code() == b.code(), i == j);
        }
        assert!(!a.message().is_empty());
    }
}

#[test]
fn systems_are_named_with_their_architecture() {
    assert_eq!(
        os_version_string("Mac OS", "14.5.0", &Some("arm64".into())),
        "Mac OS 14.5.0 (arm64)"
    );
    assert_eq!(os_version_string("Linux", "6", &None), "Linux 6 (unknown)");
    assert_eq!(probe_mdns(MdnsOutcome::Resolved).status, "ok");
}
