//! The Android debug bridge.
use phonebridge::integrations::adb::{
    adb_input_args, android_keycode, android_keycode_value, android_metastate, escape_adb_text,
    first_authorized_serial, list_devices, mask_serial, parse_adb_devices, parse_wm_size,
    resolve_tool, resolve_tool_bundled, search_shell, serial_for_session_id, tool_candidates,
    wm_size_arguments, AdbInputController, ToolPlaces,
};
use phonebridge::integrations::android_frame::locate_ffmpeg;
use phonebridge::integrations::usb_devices::resolve_adb;
use phonebridge::integrations::{path_below, tool_run, AdapterError, HostPlatform};

fn tool_places(resources: &str, configured: Option<&str>) -> ToolPlaces {
    ToolPlaces {
        platform: HostPlatform::Other,
        resources: resources.into(),
        configured: configured.map(String::from),
        android_home: None,
        android_sdk_root: None,
        home: Some("/home/me".into()),
        local_app_data: None,
        user_profile: None,
        path_dirs: vec!["/usr/bin".into()],
    }
}

/// Looks for a tool among files that are there.
fn look(p: &ToolPlaces, name: &str, files: &[&str]) -> Result<String, String> {
    let candidates = tool_candidates(p, name);
    let present: Vec<bool> = candidates
        .iter()
        .map(|c| files.contains(&c.path.as_str()))
        .collect();
    resolve_tool(&candidates, &present, None, name, "PHONEBRIDGE_ADB_PATH")
}

#[test]
fn parses_adb_devices_output() {
    let out = "List of devices attached\nABC123XYZ\tdevice\nDEF456\tunauthorized\n\nGHI789\toffline\n";
    let devices = parse_adb_devices(out);
    assert_eq!(devices.len(), 3);
    assert_eq!(devices[0].status, "device");
    assert!(devices[0].serial_masked.contains("****"));
    assert!(devices[0].serial_masked.ends_with("XYZ"));
    assert_eq!(devices[1].status, "unauthorized");
}

#[test]
fn mask_serial_keeps_tail() {
    assert_eq!(mask_serial("0123456789ABCDEF"), "01****CDEF");
    assert_eq!(mask_serial("abc"), "****");
}

#[test]
fn parses_wm_size() {
    assert_eq!(
        parse_wm_size("Physical size: 1080x2340"),
        Some((1080, 2340))
    );
    assert_eq!(parse_wm_size("Override size: 800x600"), Some((800, 600)));
    assert_eq!(parse_wm_size("unknown output"), None);
}

#[test]
fn builds_whitelisted_input_args() {
    let args = adb_input_args(Some("SER"), &["tap", "100", "200"]);
    assert_eq!(
        args,
        vec!["-s", "SER", "shell", "input", "tap", "100", "200"]
    );
    let args = adb_input_args(None, &["keyevent", "KEYCODE_ENTER"]);
    assert_eq!(args, vec!["shell", "input", "keyevent", "KEYCODE_ENTER"]);
}

#[test]
fn escapes_adb_text() {
    assert_eq!(escape_adb_text("hello world"), "hello%sworld");
    assert_eq!(escape_adb_text("a b"), "a%sb");
    assert_eq!(escape_adb_text("100%"), "100%s");
}

#[test]
fn android_keycodes() {
    assert_eq!(android_keycode("KeyA"), Some("KEYCODE_A"));
    assert_eq!(android_keycode("Digit7"), Some("KEYCODE_7"));
    assert_eq!(android_keycode("Enter"), Some("KEYCODE_ENTER"));
    assert_eq!(android_keycode("Backspace"), Some("KEYCODE_DEL"));
    assert_eq!(android_keycode("ArrowUp"), Some("KEYCODE_DPAD_UP"));
    assert_eq!(android_keycode("F3"), None);
}

#[test]
fn scrcpy_keycode_values_and_metastate() {
    assert_eq!(android_keycode_value("KeyA"), Some(29));
    assert_eq!(android_keycode_value("Digit7"), Some(14));
    assert_eq!(android_keycode_value("Enter"), Some(66));
    assert_eq!(android_keycode_value("F3"), None);
    assert_eq!(android_metastate(true, true, false, false), 0x1001);
}

#[test]
fn bundled_binary_takes_precedence_over_env() {
    let p = tool_places("/tmp/pb", Some("/tmp/pb/elsewhere"));
    let got = look(&p, "adb", &["/tmp/pb/binaries/adb", "/tmp/pb/elsewhere", "/usr/bin/adb"]);
    assert_eq!(got.unwrap(), "/tmp/pb/binaries/adb");
}

#[test]
fn env_var_directory_is_resolved_with_exe() {
    let p = tool_places("/nonexistent-resources", Some("/tmp/pb-env"));
    let got = look(&p, "adb", &["/tmp/pb-env/adb"]);
    assert_eq!(got.unwrap(), "/tmp/pb-env/adb");
}

#[test]
fn missing_tool_reports_probed_sources() {
    let p = tool_places("/tmp/pb", None);
    let err = look(&p, "adb-quite-unique-xyz", &[]).unwrap_err();
    assert!(err.contains("未找到 adb-quite-unique-xyz"), "err: {err}");
    assert!(err.contains("已探测"), "err: {err}");
}

#[test]
fn what_the_shell_finds_comes_last() {
    let p = tool_places("/tmp/pb", None);
    let candidates = tool_candidates(&p, "adb");
    let none = vec![false; candidates.len()];
    let shell = Some("/opt/adb".to_string());
    assert_eq!(
        resolve_tool_bundled(&candidates, &none, shell.clone(), "adb", "X").unwrap(),
        "/opt/adb"
    );
    assert_eq!(resolve_adb(&candidates, &none, shell.clone()).unwrap(), "/opt/adb");
    assert!(resolve_adb(&candidates, &none, None).is_err());
    assert_eq!(locate_ffmpeg(&candidates, &none, None), None);
    assert_eq!(locate_ffmpeg(&candidates, &none, shell).as_deref(), Some("/opt/adb"));
    let run = tool_run(true, "exit status: 0", b"/opt/adb\n", b"");
    assert_eq!(search_shell(HostPlatform::Other, &run).as_deref(), Some("/opt/adb"));
    let run = tool_run(false, "exit status: 1", b"/opt/adb\n", b"");
    assert_eq!(search_shell(HostPlatform::Other, &run), None);
}

#[test]
fn devices_are_listed_and_chosen() {
    let output = "List of devices attached\nABCD1234\tunauthorized\nEFGH5678\tdevice\nIJKL9012\tdevice\n";
    assert_eq!(list_devices(Ok(output.into())).unwrap().len(), 3);
    assert!(matches!(list_devices(Err("x".into())), Err(AdapterError::Failed(_))));
    assert_eq!(
        first_authorized_serial(Ok(output.into())).unwrap().as_deref(),
        Some("EFGH5678")
    );
    assert_eq!(
        serial_for_session_id(Ok(output.into()), "android:IJKL9012").unwrap().as_deref(),
        Some("IJKL9012")
    );
    assert_eq!(first_authorized_serial(Ok(String::new())).unwrap(), None);
    assert_eq!(wm_size_arguments(Some("S")), vec!["-s", "S", "shell", "wm", "size"]);
}

#[test]
fn touches_and_texts_become_arguments() {
    let c = AdbInputController::new("adb".into(), Some("SER".into()));
    assert_eq!(c.tap(1, 2), vec!["-s", "SER", "shell", "input", "tap", "1", "2"]);
    assert_eq!(
        c.touch_down(1, 2),
        vec!["-s", "SER", "shell", "input", "motionevent", "DOWN", "1", "2"]
    );
    assert_eq!(c.touch_up(1, 2)[5], "UP");
    assert_eq!(c.touch_move(1, 2)[5], "MOVE");
    assert_eq!(c.insert_text("a b").last().unwrap(), "a%sb");
    assert!(!c.insert_text("x y z").last().unwrap().contains(' '));
    assert!(AdbInputController::outcome(Ok(tool_run(true, "0", b"", b""))).is_ok());
    assert!(AdbInputController::outcome(Ok(tool_run(false, "1", b"", b"no"))).is_err());
    assert!(AdbInputController::outcome(Err("x".into())).is_err());
}

#[test]
fn every_named_key_has_a_number() {
    for code in [
        "KeyA", "KeyZ", "Digit0", "Enter", "Tab", "Escape", "Space", "ArrowDown", "Delete", "F3",
        "Nothing",
    ] {
        assert_eq!(
            android_keycode(code).is_some(),
            android_keycode_value(code).is_some(),
            "{code}"
        );
    }
}

#[test]
fn paths_are_written_as_on_the_platform() {
    let windows = HostPlatform::Windows;
    assert_eq!(path_below(windows, "C:\\a", "b"), "C:\\a\\b");
    assert_eq!(path_below(windows, "C:\\a\\", "b/c"), "C:\\a\\b/c");
    assert_eq!(path_below(windows, "C:/a/", "b"), "C:/a/b");
    assert_eq!(path_below(HostPlatform::Other, "/a", "b"), "/a/b");
    assert_eq!(path_below(HostPlatform::MacOs, "/a/", "b"), "/a/b");
    assert_eq!(path_below(HostPlatform::Other, "a\\", "b"), "a\\/b");
    assert_eq!(path_below(windows, "", "b"), "b");
    let mut p = tool_places("C:\\res", None);
    p.platform = windows;
    assert_eq!(tool_candidates(&p, "adb")[0].path, "C:\\res\\binaries\\adb.exe");
}
