//! Sessions and the registry of them.
use phonebridge::commands::clipboard::{paste_plain_text, paste_task_failed, PasteOptions, PastePrefs};
use phonebridge::commands::frame::{attach_frame_channel, frame_status, frame_test_mode};
use phonebridge::commands::hid::{
    button_bit, hid_key_stroke, hid_pointer_button, hid_pointer_move, hid_wheel, HidKeyStroke,
    HidModifiers, PointerButtonEvent, PointerMoveEvent, WheelPayload,
};
use phonebridge::commands::log::{get_app_logs, report_frontend_error};
use phonebridge::commands::session::{
    activate_device, list_sessions, release_all_input, start_control, start_session,
    stop_control, task_failed, SessionTask, StartSessionRequest,
};
use phonebridge::commands::usb::list_usb_devices_cmd;
use phonebridge::integrations::adb::parse_adb_devices;
use phonebridge::integrations::hid_adapter::{
    HidStatus, INPUT_REPORT_BOOT_KEYBOARD, INPUT_REPORT_BOOT_MOUSE, INPUT_REPORT_KEYBOARD,
    INPUT_REPORT_MOUSE,
};
use phonebridge::integrations::mirror_adapter::MirrorEvent;
use phonebridge::integrations::usb_devices::{UsbDevice, UsbDeviceKind};
use phonebridge::integrations::wda_requests::ScreenSize;
use phonebridge::integrations::{AdapterError, HostPlatform};
use phonebridge::session::device::{
    keyboard_input_ready, phone_size, preflight, reconnect_delay_ms, DeviceKind, DeviceSession,
    PreflightFacts, ReconnectStep, ReleaseWork, ERROR_LOG_LIMIT, RECONNECT_MAX_ATTEMPTS,
};
use phonebridge::session::device_control::ControlPlan;
use phonebridge::session::device_input::{InputAction, PasteRoute};
use phonebridge::session::manager::{
    deliver, EventSink, LogEntry, Notice, SessionPreferences, SessionRegistry, SessionStateView,
};
use phonebridge::session::state::{SessionEvent, SessionStateMachine, SessionStateName};

const AT: &str = "2024-01-01T00:00:00+00:00";

/// A sink that keeps what it is told.
#[derive(Default)]
struct MemSink {
    sessions: Vec<(String, SessionStateName)>,
    errors: Vec<(String, LogEntry)>,
    active: Vec<Option<String>>,
    logs: Vec<(String, LogEntry)>,
}

impl EventSink for MemSink {
    fn emit_session(&mut self, id: &str, view: &SessionStateView) {
        self.sessions.push((id.into(), view.state));
    }

    fn emit_hid(&mut self, _id: &str, _status: &HidStatus) {}

    fn emit_mirror_metadata(&mut self, _id: &str, _width: u32, _height: u32) {}

    fn emit_diagnostic_error(&mut self, id: &str, entry: &LogEntry) {
        self.errors.push((id.into(), entry.clone()));
    }

    fn emit_log(&mut self, id: &str, entry: &LogEntry) {
        self.logs.push((id.into(), entry.clone()));
    }

    fn emit_active_changed(&mut self, id: &Option<String>) {
        self.active.push(id.clone());
    }
}

fn registry() -> SessionRegistry {
    SessionRegistry::new("/nonexistent-phonebridge-test-resources".into())
}

fn missing() -> Result<(), AdapterError> {
    Err(AdapterError::DependencyMissing("uxplay".into()))
}

/// Starts a session whose checks fail.
fn start(reg: &mut SessionRegistry, kind: DeviceKind, id: &str) -> Result<(), AdapterError> {
    reg.start_session(kind, id.into(), None, missing(), AT)
}

#[test]
fn session_id_and_kind_roundtrip() {
    let mut s = DeviceSession::new("iphone:TEST-1234".into(), DeviceKind::Iphone, 6000, AT);
    assert_eq!(s.id, "iphone:TEST-1234");
    assert_eq!(s.kind, DeviceKind::Iphone);
    assert!(s.stop_session(AT).1.is_ok());
}

#[test]
fn kind_from_str() {
    assert_eq!(DeviceKind::from_str("iphone"), Some(DeviceKind::Iphone));
    assert_eq!(DeviceKind::from_str("android"), Some(DeviceKind::Android));
    assert_eq!(DeviceKind::from_str("nope"), None);
}

#[test]
fn reconnect_delay_backs_off_and_caps() {
    assert_eq!(reconnect_delay_ms(1), 1000);
    assert_eq!(reconnect_delay_ms(2), 2000);
    assert_eq!(reconnect_delay_ms(3), 4000);
    assert_eq!(reconnect_delay_ms(4), 8000);
    // 第 5 次起封顶 16s，避免长时间静默等待
    assert_eq!(reconnect_delay_ms(5), 16000);
    assert_eq!(reconnect_delay_ms(6), 16000);
    assert_eq!(reconnect_delay_ms(u32::MAX), 16000);
}

#[test]
fn keyboard_report_readiness_ignores_mouse_only_subscriptions() {
    assert!(!keyboard_input_ready(INPUT_REPORT_MOUSE));
    assert!(!keyboard_input_ready(INPUT_REPORT_BOOT_MOUSE));
    assert!(keyboard_input_ready(INPUT_REPORT_KEYBOARD));
    assert!(keyboard_input_ready(INPUT_REPORT_BOOT_KEYBOARD));
    assert!(keyboard_input_ready(
        INPUT_REPORT_MOUSE | INPUT_REPORT_KEYBOARD
    ));
}

#[test]
fn reconnect_schedule_is_idempotent() {
    let mut s = DeviceSession::new("iphone:TEST-1234".into(), DeviceKind::Iphone, 6000, AT);
    // Two requests start one reconnection; it finds that the session does not reconnect, ends,
    // and can be asked for again.
    assert!(s.schedule_reconnect());
    assert!(!s.schedule_reconnect());
    assert!(!s.still_reconnecting());
    s.reconnect_ended();
    assert!(s.schedule_reconnect());
    let mut m = SessionStateMachine::new();
    m.transition(SessionEvent::UserConnect).unwrap();
    m.transition(SessionEvent::ChecksPassed).unwrap();
    m.transition(SessionEvent::MirrorStarted).unwrap();
    m.transition(SessionEvent::FirstFrame).unwrap();
    m.transition(SessionEvent::LinkLost).unwrap();
    assert_eq!(m.state(), SessionStateName::Reconnecting);
    m.transition(SessionEvent::ReconnectOk).unwrap();
    assert_eq!(m.state(), SessionStateName::MirroringConnected);
}

#[test]
fn multiple_sessions_coexist() {
    let mut reg = registry();
    // 依赖缺失时 start 返回 Err，但会话保留（Failed）便于展示
    let _ = start(&mut reg, DeviceKind::Iphone, "iphone:A");
    let _ = start(&mut reg, DeviceKind::Android, "android:SER");
    assert_eq!(reg.count(), 2);
    assert_eq!(reg.list().len(), 2);
    // 首台自动激活
    assert_eq!(reg.active().as_deref(), Some("iphone:A"));
    assert_eq!(
        reg.get("iphone:A").unwrap().state_view().state,
        SessionStateName::Failed
    );
}

#[test]
fn uxplay_instances_receive_non_overlapping_port_ranges() {
    let mut reg = registry();
    let _ = start(&mut reg, DeviceKind::Iphone, "iphone:A");
    let _ = start(&mut reg, DeviceKind::Iphone, "iphone:B");

    assert_eq!(reg.get("iphone:A").unwrap().uxplay_port(), 6000);
    assert_eq!(reg.get("iphone:B").unwrap().uxplay_port(), 6003);
}

#[test]
fn activate_releases_old_and_switches() {
    let mut reg = registry();
    let _ = start(&mut reg, DeviceKind::Iphone, "iphone:A");
    let _ = start(&mut reg, DeviceKind::Android, "android:SER");
    reg.activate("android:SER").unwrap();
    assert_eq!(reg.active().as_deref(), Some("android:SER"));
    assert!(reg.activate("iphone:none").is_err());
}

#[test]
fn stop_session_promotes_next_active() {
    let mut reg = registry();
    let _ = start(&mut reg, DeviceKind::Iphone, "iphone:A");
    let _ = start(&mut reg, DeviceKind::Iphone, "iphone:B");
    assert_eq!(reg.active().as_deref(), Some("iphone:A"));
    reg.stop_session("iphone:A", AT).unwrap();
    assert!(reg.active().is_some());
    assert_ne!(reg.active().as_deref(), Some("iphone:A"));
    assert_eq!(reg.count(), 1);
}

#[test]
fn stop_all_clears_everything() {
    let mut reg = registry();
    let mut sink = MemSink::default();
    let _ = start(&mut reg, DeviceKind::Iphone, "iphone:A");
    let _ = start(&mut reg, DeviceKind::Android, "android:SER");
    reg.stop_all(AT);
    deliver("", &reg.take_outbox(), &mut sink);
    assert_eq!(reg.count(), 0);
    assert_eq!(reg.active(), None);
    assert!(sink.active.contains(&None));
}

#[test]
fn duplicate_session_rejected() {
    let mut reg = registry();
    let _ = start(&mut reg, DeviceKind::Iphone, "iphone:A");
    assert!(matches!(
        start(&mut reg, DeviceKind::Iphone, "iphone:A"),
        Err(AdapterError::Busy(_))
    ));
}

// ---------------------------------------------------------------------------
// One session
// ---------------------------------------------------------------------------

fn prefs(usb: bool, auto: bool) -> SessionPreferences {
    SessionPreferences {
        ios_usb_control_enabled: usb,
        auto_control: auto,
        ..SessionPreferences::default()
    }
}

/// An iPhone whose picture is there.
fn mirrored_iphone(p: SessionPreferences) -> DeviceSession {
    let mut s = DeviceSession::new("iphone:A".into(), DeviceKind::Iphone, 6000, AT);
    s.start_session(Some(p), Ok(()), AT).unwrap();
    s.receiver_started();
    let work = s.on_mirror_event(MirrorEvent::MirrorConnected, AT);
    assert!(!work.start_reconnect);
    assert_eq!(s.state_view().state, SessionStateName::MirroringConnected);
    s
}

/// An iPhone that is controlled over USB.
fn usb_iphone() -> DeviceSession {
    let mut s = mirrored_iphone(prefs(true, false));
    assert_eq!(s.start_control(None, AT).unwrap(), ControlPlan::IosUsb);
    s.usb_control_started(
        Ok(ScreenSize {
            width: 393,
            height: 852,
        }),
        AT,
    )
    .unwrap();
    assert_eq!(s.state_view().state, SessionStateName::ControlReady);
    s
}

/// An Android phone that is controlled.
fn controlled_android() -> DeviceSession {
    let mut s = DeviceSession::new("android:SER".into(), DeviceKind::Android, 6000, AT);
    s.start_session(Some(prefs(false, true)), Ok(()), AT).unwrap();
    s.choose_serial(Ok(Some("SER".into())), AT).unwrap();
    s.screen_created((498, 1080));
    s.screen_started(1080, 2340, AT);
    s.on_android_first_frame(498, 1080, true, AT);
    assert_eq!(s.state_view().state, SessionStateName::ControlReady);
    s
}

#[test]
fn checks_name_what_is_missing() {
    let facts = || PreflightFacts {
        platform: HostPlatform::MacOs,
        receiver: Ok("/bin/uxplay".into()),
        adb: Ok("/bin/adb".into()),
        devices: Ok(parse_adb_devices("List of devices attached\nSER123\tdevice\n")),
        scrcpy_server: true,
        ffmpeg: true,
    };
    assert!(preflight(DeviceKind::Iphone, facts()).is_ok());
    assert!(preflight(DeviceKind::Android, facts()).is_ok());
    let mut f = facts();
    f.receiver = Err("no uxplay".into());
    assert!(matches!(
        preflight(DeviceKind::Iphone, f),
        Err(AdapterError::DependencyMissing(_))
    ));
    let mut f = facts();
    f.adb = Err("no adb".into());
    assert!(preflight(DeviceKind::Android, f).is_err());
    let mut f = facts();
    f.devices = Ok(Vec::new());
    assert!(preflight(DeviceKind::Android, f).is_err());
    let mut f = facts();
    f.scrcpy_server = false;
    assert!(preflight(DeviceKind::Android, f).is_err());
    let mut f = facts();
    f.ffmpeg = false;
    assert!(preflight(DeviceKind::Android, f).is_err());
}

#[test]
fn a_session_that_fails_its_checks_says_why() {
    let mut s = DeviceSession::new("iphone:A".into(), DeviceKind::Iphone, 6000, AT);
    assert!(s.start_session(None, missing(), AT).is_err());
    let view = s.state_view();
    assert_eq!(view.state, SessionStateName::Failed);
    assert_eq!(view.last_error.unwrap().code, "dependency_missing");
    assert_eq!(s.error_log().len(), 1);
    let (_, r) = s.stop_session(AT);
    assert!(r.is_ok());
    assert_eq!(s.state_view().state, SessionStateName::Idle);
}

#[test]
fn usb_control_does_not_fall_back() {
    let mut s = mirrored_iphone(prefs(true, false));
    assert_eq!(s.start_control(None, AT).unwrap(), ControlPlan::IosUsb);
    let r = s.usb_control_started(Err(AdapterError::IosUsbUnavailable("no server".into())), AT);
    assert!(matches!(r, Err(AdapterError::Failed(_))));
    assert_eq!(s.state_view().state, SessionStateName::MirroringConnected);
    assert!(matches!(
        s.send_wheel(1),
        Err(AdapterError::ControlInactive(_))
    ));
    let logs: Vec<String> = s
        .take_outbox()
        .into_iter()
        .filter_map(|n| match n {
            Notice::Log(e) => Some(e.code),
            _ => None,
        })
        .collect();
    assert!(logs.contains(&"ios_usb_required".to_string()));
}

#[test]
fn advertising_alone_is_not_control() {
    let mut s = mirrored_iphone(prefs(false, false));
    assert_eq!(s.start_control(None, AT).unwrap(), ControlPlan::Ble);
    let advertising = || HidStatus {
        control_transport: "ble".into(),
        advertising: true,
        powered_on: true,
        ..HidStatus::default()
    };
    s.ble_control_started(Ok(advertising()), AT).unwrap();
    assert_eq!(s.state_view().state, SessionStateName::ControlPairing);
    s.on_hid_status(advertising(), advertising(), AT);
    assert_eq!(s.state_view().state, SessionStateName::ControlPairing);
    let ready = || HidStatus {
        paired: true,
        connected: true,
        subscribed: true,
        input_report_mask: INPUT_REPORT_KEYBOARD | INPUT_REPORT_MOUSE,
        ..advertising()
    };
    s.on_hid_status(ready(), ready(), AT);
    assert_eq!(s.state_view().state, SessionStateName::ControlReady);
    assert!(matches!(
        s.send_pointer_move(300, -5, None, None),
        Ok(InputAction::Mouse(r)) if r.dx == 127 && r.dy == -5
    ));
    assert!(matches!(
        s.send_key_stroke("KeyA", "a", false, true, false, false),
        Ok(InputAction::Keyboard(_, _))
    ));
    assert!(s.send_key_stroke("F13", "", false, false, false, false).is_err());
    s.on_hid_status(advertising(), advertising(), AT);
    assert_eq!(s.state_view().state, SessionStateName::MirroringConnected);
}

#[test]
fn control_waits_for_the_picture() {
    let mut s = DeviceSession::new("iphone:A".into(), DeviceKind::Iphone, 6000, AT);
    assert!(matches!(
        s.start_control(None, AT),
        Err(AdapterError::ControlInactive(_))
    ));
}

#[test]
fn fingers_on_android_move_only_while_they_are_down() {
    let mut s = controlled_android();
    assert!(matches!(
        s.send_pointer_move(1, 1, Some((10, 20)), None),
        Ok(InputAction::Nothing)
    ));
    assert!(matches!(
        s.send_pointer_button(1, true, Some((10, 20)), None),
        Ok(InputAction::TouchDown { x: 10, y: 20, .. })
    ));
    assert!(matches!(
        s.send_pointer_move(1, 1, Some((11, 21)), None),
        Ok(InputAction::TouchMove { x: 11, y: 21, .. })
    ));
    assert!(matches!(
        s.release_all_input(),
        ReleaseWork::LiftFinger { x: 11, y: 21, .. }
    ));
    assert!(matches!(
        s.send_pointer_move(1, 1, Some((12, 22)), None),
        Ok(InputAction::Nothing)
    ));
    assert!(matches!(
        s.send_key_stroke("KeyA", "a", true, true, false, false),
        Ok(InputAction::Keycode { keycode: 29, metastate: 0x1001 })
    ));
}

#[test]
fn buttons_on_usb_are_followed_once_they_were_sent() {
    let mut s = usb_iphone();
    let at = Some((1, 2));
    let size = Some((480, 1040));
    assert!(matches!(s.send_pointer_move(0, 0, at, size), Ok(InputAction::Nothing)));
    assert!(matches!(
        s.send_pointer_button(1, true, at, size),
        Ok(InputAction::UsbButton { pressed: true, .. })
    ));
    s.usb_button_sent(true, true);
    assert!(matches!(
        s.send_pointer_move(0, 0, at, size),
        Ok(InputAction::UsbMove { x: 1, y: 2, .. })
    ));
    s.usb_button_sent(false, true);
    assert!(matches!(s.send_pointer_move(0, 0, at, size), Ok(InputAction::Nothing)));
}

#[test]
fn a_lost_picture_is_restarted_a_few_times() {
    let mut s = mirrored_iphone(prefs(false, false));
    let work = s.on_mirror_event(
        MirrorEvent::Crashed {
            source: "uxplay".into(),
            exit_code: Some(1),
        },
        AT,
    );
    assert!(work.start_reconnect);
    assert_eq!(s.state_view().state, SessionStateName::Reconnecting);
    let mut waits = Vec::new();
    while let ReconnectStep::Wait { delay_ms, attempt } = s.reconnect_round(AT) {
        waits.push(delay_ms);
        assert!(s.pause_over(attempt, AT));
        s.relaunch_failed(&AdapterError::Failed("again".into()), AT);
    }
    s.reconnect_ended();
    assert_eq!(waits.len() as u32, RECONNECT_MAX_ATTEMPTS);
    assert_eq!(waits, vec![1000, 2000, 4000, 8000, 16000]);
    assert_eq!(s.state_view().state, SessionStateName::Failed);
}

#[test]
fn a_crash_after_the_end_changes_nothing() {
    let mut s = mirrored_iphone(prefs(false, false));
    s.stop_session(AT).1.unwrap();
    s.take_outbox();
    let work = s.on_mirror_event(
        MirrorEvent::Crashed {
            source: "uxplay".into(),
            exit_code: None,
        },
        AT,
    );
    assert!(!work.start_reconnect);
    assert_eq!(s.state_view().state, SessionStateName::Idle);
}

#[test]
fn errors_are_kept_up_to_a_limit() {
    let mut s = mirrored_iphone(prefs(false, false));
    for _ in 0..ERROR_LOG_LIMIT + 50 {
        s.relaunch_failed(&AdapterError::Failed("x".into()), AT);
    }
    assert!(s.error_log().len() <= ERROR_LOG_LIMIT);
}

#[test]
fn pastes_leave_no_text_in_the_log() {
    let mut s = usb_iphone();
    let (max, token) = s.begin_paste(None, AT).unwrap();
    assert_eq!(max, 32 * 1024);
    let secret = "my words".to_string();
    assert!(matches!(
        s.paste(&Ok(secret.clone()), max, token, AT),
        PasteRoute::Usb
    ));
    let r = s.paste_sent_usb(&secret, Ok(()), AT);
    assert!(r.ok);
    assert_eq!(r.char_count, 8);
    for n in s.take_outbox() {
        if let Notice::Log(e) | Notice::Error(e) = n {
            assert!(!e.message.contains("words"), "{e:?}");
        }
    }
    s.release_all_input();
    match s.paste(&Ok(secret), max, token, AT) {
        PasteRoute::Finished(r) => assert_eq!(r.error.unwrap().code, "control_inactive"),
        other => panic!("{other:?}"),
    }
}

#[test]
fn pastes_that_cannot_be_made_say_why() {
    let mut s = controlled_android();
    let (max, token) = s.begin_paste(Some(4), AT).unwrap();
    assert_eq!(max, 4);
    match s.paste(&Ok("too long".into()), max, token, AT) {
        PasteRoute::Finished(r) => assert_eq!(r.error.unwrap().code, "paste_oversized"),
        other => panic!("{other:?}"),
    }
    match s.paste(&Ok(String::new()), max, token, AT) {
        PasteRoute::Finished(r) => assert_eq!(r.error.unwrap().code, "clipboard_empty"),
        other => panic!("{other:?}"),
    }
    match s.paste(&Err(AdapterError::Failed("x".into())), max, token, AT) {
        PasteRoute::Finished(r) => assert_eq!(r.error.unwrap().code, "clipboard_read_failed"),
        other => panic!("{other:?}"),
    }
    let mut s = mirrored_iphone(prefs(false, false));
    assert_eq!(
        s.begin_paste(None, AT).unwrap_err().error.unwrap().code,
        "control_inactive"
    );
}

// ---------------------------------------------------------------------------
// All sessions
// ---------------------------------------------------------------------------

#[test]
fn sessions_are_listed_by_name() {
    let mut reg = registry();
    for id in ["iphone:B", "android:Z", "iphone:A"] {
        let _ = start(&mut reg, DeviceKind::Iphone, id);
    }
    let ids: Vec<String> = reg.list().into_iter().map(|(id, _, _)| id).collect();
    assert_eq!(ids, vec!["android:Z", "iphone:A", "iphone:B"]);
    let infos = list_sessions(&reg, &Vec::new());
    assert_eq!(infos.len(), 3);
    assert_eq!(infos[0].kind, "iphone");
    assert!(infos[2].active && !infos[1].active);
    assert_eq!(infos[0].mirror_size, None);
}

#[test]
fn a_session_that_starts_becomes_active_with_its_picture() {
    let mut reg = registry();
    reg.start_session(DeviceKind::Iphone, "iphone:A".into(), None, Ok(()), AT)
        .unwrap();
    assert_eq!(reg.active(), None);
    reg.picture_launched("iphone:A");
    assert_eq!(reg.active().as_deref(), Some("iphone:A"));
    reg.picture_launched("iphone:none");
    assert_eq!(reg.active().as_deref(), Some("iphone:A"));
}

#[test]
fn notices_are_delivered_in_order() {
    let mut reg = registry();
    let mut sink = MemSink::default();
    let _ = start(&mut reg, DeviceKind::Iphone, "iphone:A");
    let stopped = reg.stop_session("iphone:A", AT).unwrap().unwrap();
    assert_eq!(stopped.id, "iphone:A");
    deliver(&stopped.id, &stopped.notices, &mut sink);
    deliver("", &reg.take_outbox(), &mut sink);
    assert_eq!(
        sink.sessions,
        vec![
            ("iphone:A".to_string(), SessionStateName::Checking),
            ("iphone:A".to_string(), SessionStateName::Failed),
            ("iphone:A".to_string(), SessionStateName::Idle),
        ]
    );
    assert_eq!(sink.active, vec![Some("iphone:A".to_string()), None]);
    assert_eq!(sink.errors.len(), 1);
    assert!(reg.stop_session("iphone:A", AT).unwrap().is_none());
}

fn entry(at: &str, message: &str) -> LogEntry {
    LogEntry {
        at: at.into(),
        level: "info".into(),
        code: "c".into(),
        message: message.into(),
    }
}

#[test]
fn logs_are_joined_in_the_order_of_their_times() {
    let mut reg = registry();
    reg.record_frontend_log(entry("2024-01-03", "third"));
    reg.record_frontend_log(entry("2024-01-01", "first"));
    reg.record_frontend_log(entry("2024-01-01", "second"));
    let _ = reg.start_session(
        DeviceKind::Iphone,
        "iphone:A".into(),
        None,
        missing(),
        "2024-01-02",
    );
    let all: Vec<String> = get_app_logs(&reg).into_iter().map(|e| e.at).collect();
    assert_eq!(all, vec!["2024-01-01", "2024-01-01", "2024-01-02", "2024-01-03"]);
    let log = reg.aggregate_error_log();
    assert_eq!(log[0].message, "first");
    assert_eq!(log[1].message, "second");
}

#[test]
fn what_the_window_reports_is_cut_and_kept_up_to_a_limit() {
    let mut reg = registry();
    for i in 0..505 {
        report_frontend_error(&mut reg, &format!("{i} {}", "字".repeat(600)), AT);
    }
    let log = get_app_logs(&reg);
    assert_eq!(log.len(), 500);
    assert!(log[0].message.starts_with("5 "));
    assert_eq!(log[0].message.chars().count(), 500);
    assert_eq!(log[0].code, "frontend_error");
    assert_eq!(log[0].level, "warn");
    assert_eq!(reg.take_outbox().len(), 505);
}

#[test]
fn requests_about_a_missing_session_are_refused() {
    let mut reg = registry();
    let code = |r: Result<InputAction, phonebridge::commands::CommandErrorPayload>| r.unwrap_err().code;
    let moved = PointerMoveEvent {
        dx: 1,
        dy: 1,
        abs_x: None,
        abs_y: None,
        source_width: None,
        source_height: None,
    };
    assert_eq!(code(hid_pointer_move(&mut reg, "x", moved)), "no_session");
    let stroke = HidKeyStroke {
        code: "KeyA".into(),
        key: "a".into(),
        modifiers: HidModifiers {
            ctrl: false,
            shift: false,
            alt: false,
            meta: false,
        },
        repeat: false,
    };
    assert_eq!(code(hid_key_stroke(&mut reg, "x", &stroke)), "no_session");
    assert_eq!(code(hid_wheel(&mut reg, "x", WheelPayload { delta_y: 1 })), "no_session");
    let button = |name: &str| PointerButtonEvent {
        button: name.into(),
        pressed: true,
        x: None,
        y: None,
        source_width: None,
        source_height: None,
    };
    assert_eq!(code(hid_pointer_button(&mut reg, "x", button("left"))), "no_session");
    assert_eq!(code(hid_pointer_button(&mut reg, "x", button("fourth"))), "invalid_button");
    assert_eq!(
        (button_bit("left"), button_bit("right"), button_bit("middle")),
        (Some(1), Some(2), Some(4))
    );
    assert_eq!(
        start_control(&mut reg, "x", SessionPreferences::default(), AT)
            .unwrap_err()
            .code,
        "no_session"
    );
    let (work, r) = stop_control(&mut reg, "x", AT);
    assert_eq!(work, ReleaseWork::Nothing);
    assert_eq!(r.unwrap_err().code, "no_session");
    assert_eq!(release_all_input(&mut reg, "x"), ReleaseWork::Nothing);
    assert_eq!(activate_device(&mut reg, "x").unwrap_err().code, "adapter_failed");
    let r = paste_plain_text(&mut reg, "x", PasteOptions { prefs: None }, AT);
    assert_eq!(r.unwrap_err().error.unwrap().code, "no_session");
    assert!(attach_frame_channel(&mut reg, "x").is_err());
    assert!(frame_test_mode(&mut reg, "x", true).is_err());
    let f = frame_status(&reg, "x");
    assert_eq!((f.has_sink, f.test_mode, f.width, f.height), (false, false, 0, 0));
}

#[test]
fn requests_reach_their_session() {
    let mut reg = registry();
    let request = |kind: &str| StartSessionRequest {
        kind: kind.into(),
        id: "iphone:A".into(),
        prefs: None,
    };
    assert_eq!(
        start_session(&mut reg, request("tablet"), Ok(()), AT).unwrap_err().code,
        "invalid_kind"
    );
    start_session(&mut reg, request("iphone"), Ok(()), AT).unwrap();
    assert_eq!(
        start_session(&mut reg, request("iphone"), Ok(()), AT).unwrap_err().code,
        "session_busy"
    );
    assert_eq!(
        hid_wheel(&mut reg, "iphone:A", WheelPayload { delta_y: 1 }).unwrap_err().code,
        "control_inactive"
    );
    assert_eq!(
        frame_test_mode(&mut reg, "iphone:A", true).unwrap_err().code,
        "session_busy"
    );
    attach_frame_channel(&mut reg, "iphone:A").unwrap();
    assert!(frame_test_mode(&mut reg, "iphone:A", true).unwrap());
    let f = frame_status(&reg, "iphone:A");
    assert!(f.has_sink && f.test_mode);
    assert!(!frame_test_mode(&mut reg, "iphone:A", false).unwrap());
    activate_device(&mut reg, "iphone:A").unwrap();
    assert!(list_sessions(&reg, &Vec::new())[0].active);
    let options = PasteOptions {
        prefs: Some(PastePrefs { max_paste_bytes: 3 }),
    };
    assert_eq!(
        paste_plain_text(&mut reg, "iphone:A", options, AT)
            .unwrap_err()
            .error
            .unwrap()
            .code,
        "control_inactive"
    );
    assert_eq!(
        start_control(&mut reg, "iphone:A", SessionPreferences::default(), AT)
            .unwrap_err()
            .code,
        "control_inactive"
    );
}

#[test]
fn work_that_breaks_off_is_answered() {
    assert_eq!(task_failed(SessionTask::StopSession, "x").code, "stop_session");
    assert_eq!(task_failed(SessionTask::StopAll, "x").message, "停止投屏任务失败：x");
    assert_eq!(task_failed(SessionTask::StartControl, "x").message, "启动控制任务失败：x");
    assert_eq!(task_failed(SessionTask::StopControl, "x").message, "停止控制任务失败：x");
    assert_eq!(task_failed(SessionTask::ReleaseInput, "x").message, "释放输入任务失败：x");
    assert_eq!(paste_task_failed("x").error.unwrap().message, "粘贴任务失败：x");
}

#[test]
fn phones_are_shown_with_their_authorization() {
    let device = |kind, state: &str| UsbDevice {
        kind,
        name: "n".into(),
        id_masked: "***1".into(),
        raw_id: "raw".into(),
        state: state.into(),
    };
    let r = list_usb_devices_cmd(
        &vec![
            device(UsbDeviceKind::Iphone, "connected"),
            device(UsbDeviceKind::Iphone, "device"),
            device(UsbDeviceKind::Android, "device"),
            device(UsbDeviceKind::Android, "unauthorized"),
        ],
        vec!["note".into()],
    );
    let shown: Vec<(String, bool)> = r.devices.into_iter().map(|d| (d.kind, d.authorized)).collect();
    assert_eq!(
        shown,
        vec![
            ("iphone".to_string(), true),
            ("iphone".to_string(), false),
            ("android".to_string(), true),
            ("android".to_string(), false),
        ]
    );
    assert_eq!(r.error_per_source, vec!["note".to_string()]);
}

#[test]
fn the_session_before_is_released_when_another_becomes_active() {
    let mut reg = registry();
    reg.sessions.push(controlled_android());
    let _ = start(&mut reg, DeviceKind::Iphone, "iphone:A");
    reg.activate("android:SER").unwrap();
    reg.sessions[0]
        .send_pointer_button(1, true, Some((10, 20)), None)
        .unwrap();
    let others = reg.sessions[1].paste_token;
    assert_eq!(
        reg.activate("iphone:A").unwrap(),
        ReleaseWork::LiftFinger {
            x: 10,
            y: 20,
            width: 498,
            height: 1080
        }
    );
    assert!(!reg.sessions[0].adb_drag);
    assert_eq!(reg.sessions[0].android_pointer, None);
    assert_eq!(reg.sessions[1].paste_token, others);
}

#[test]
fn input_leaves_nothing_in_the_log() {
    let mut s = controlled_android();
    let _ = s.take_outbox();
    let _ = s.send_key_stroke("KeyS", "s", false, true, false, false);
    let _ = s.send_key_stroke("NoSuchKey", "", false, false, false, false);
    let _ = s.send_pointer_button(1, true, Some((10, 20)), None);
    let _ = s.send_pointer_move(1, 1, Some((11, 21)), None);
    let _ = s.send_wheel(160);
    assert!(s.take_outbox().is_empty());
    assert!(s.error_log().is_empty());
}

#[test]
fn a_phone_that_is_gone_fails_the_session() {
    let mut s = DeviceSession::new("android:SER".into(), DeviceKind::Android, 6000, AT);
    s.start_session(None, Ok(()), AT).unwrap();
    assert_eq!(s.state_view().state, SessionStateName::Mirroring);
    let e = s.choose_serial(Ok(None), AT).unwrap_err();
    assert_eq!(e.message(), "操作失败：Android 设备未授权或已断开");
    let view = s.state_view();
    assert_eq!(view.state, SessionStateName::Failed);
    assert_eq!(
        view.last_error.unwrap().message,
        "操作失败：Android 设备未授权或已断开"
    );
    assert_eq!(s.android_serial, None);

    let mut s = DeviceSession::new("android:SER".into(), DeviceKind::Android, 6000, AT);
    s.start_session(None, Ok(()), AT).unwrap();
    let e = s
        .choose_serial(Err(AdapterError::Failed("adb".into())), AT)
        .unwrap_err();
    assert_eq!(e.message(), "操作失败：adb");
    assert_eq!(s.state_view().state, SessionStateName::Failed);
}

#[test]
fn a_picture_that_lacks_something_fails_the_session() {
    for kind in [DeviceKind::Iphone, DeviceKind::Android] {
        let mut reg = registry();
        reg.start_session(kind, "phone".into(), None, Ok(()), AT).unwrap();
        let i = reg.index_of("phone").unwrap();
        let e = AdapterError::DependencyMissing("未找到 ffmpeg".into());
        reg.sessions[i].launch_failed(&e, AT);
        reg.picture_launched("phone");
        assert_eq!(reg.active().as_deref(), Some("phone"));
        let view = reg.sessions[i].state_view();
        assert_eq!(view.state, SessionStateName::Failed);
        assert_eq!(view.last_error.unwrap().message, e.message());
        let said = reg.sessions[i].take_outbox().into_iter().rev().find_map(|n| match n {
            Notice::Session(view) => view.detail,
            _ => None,
        });
        let before = match kind {
            DeviceKind::Iphone => "镜像引擎启动失败：",
            DeviceKind::Android => "投屏启动失败：",
        };
        assert_eq!(said, Some(format!("{before}{}", e.message())));
    }
}

/// An Android phone whose picture was lost.
fn lost_android(auto: bool) -> DeviceSession {
    let mut s = DeviceSession::new("android:SER".into(), DeviceKind::Android, 6000, AT);
    s.start_session(Some(prefs(false, false)), Ok(()), AT).unwrap();
    s.choose_serial(Ok(Some("SER".into())), AT).unwrap();
    s.screen_created((498, 1080));
    s.on_android_first_frame(498, 1080, false, AT);
    assert!(s.on_android_stream_failure("eof", AT));
    assert_eq!(s.state_view().state, SessionStateName::Reconnecting);
    s.prefs.auto_control = auto;
    s
}

#[test]
fn a_phone_that_is_gone_is_looked_for_again() {
    let mut s = lost_android(false);
    let noted = s.error_log().len();
    let e = s.choose_serial(Ok(None), AT).unwrap_err();
    s.launch_failed(&e, AT);
    assert_eq!(s.state_view().state, SessionStateName::Reconnecting);
    assert_eq!(s.error_log().len(), noted);
    // The attempt is noted once.
    s.relaunch_failed(&e, AT);
    assert_eq!(s.error_log().len(), noted + 1);
    assert_eq!(
        s.state_view().last_error.unwrap().message,
        "操作失败：Android 设备未授权或已断开"
    );
}

#[test]
fn a_picture_that_comes_back_ends_the_reconnection() {
    let mut s = lost_android(false);
    assert!(matches!(s.reconnect_round(AT), ReconnectStep::Wait { attempt: 1, .. }));
    let _ = s.take_outbox();
    s.on_android_first_frame(498, 1080, false, AT);
    assert_eq!(s.state_view().state, SessionStateName::MirroringConnected);
    assert_eq!(s.reconnect_attempts, 0);
    assert!(!s.reconnect_armed);
    assert!(s.take_outbox().iter().any(|n| matches!(n,
        Notice::Log(e) if e.code == "reconnect_ok" && e.message == "镜像链路自动重连成功")));
    assert_eq!(s.reconnect_round(AT), ReconnectStep::End);

    let mut s = lost_android(true);
    s.on_android_first_frame(498, 1080, true, AT);
    assert_eq!(s.state_view().state, SessionStateName::ControlReady);
}

#[test]
fn strokes_on_usb_carry_the_whole_key() {
    let mut s = usb_iphone();
    assert_eq!(
        s.send_key_stroke("KeyA", "A", false, true, false, true).unwrap(),
        InputAction::UsbKey {
            code: "KeyA".into(),
            key: "A".into(),
            ctrl: false,
            shift: true,
            alt: false,
            meta: true,
        }
    );
}

#[test]
fn entries_of_the_window_are_told_under_its_label() {
    let mut reg = registry();
    let mut sink = MemSink::default();
    report_frontend_error(&mut reg, "broken", AT);
    reg.tell_outbox(&mut sink);
    assert_eq!(sink.logs.len(), 1);
    assert_eq!(sink.logs[0].0, "frontend");
    assert_eq!(sink.logs[0].1.message, "broken");
    reg.tell_outbox(&mut sink);
    assert_eq!(sink.logs.len(), 1);
}

#[test]
fn phones_that_report_no_size_have_a_common_one() {
    assert_eq!(phone_size(Some((720, 1600))), (720, 1600));
    assert_eq!(phone_size(None), (1080, 2340));
}
