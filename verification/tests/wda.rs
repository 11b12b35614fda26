//! The automation server on an iPhone: its answers, its requests, and the way to it.
use phonebridge::integrations::ios_usb_control::{
    begin_connection, inspect_capability, ConfiguredWda, IosUsbControl, WdaEndpoints, WdaParts,
    WdaPurpose, WdaSettings, WdaStage,
};
use phonebridge::integrations::usb_devices::{UsbDevice, UsbDeviceKind};
use phonebridge::integrations::wda_http::{
    chunk_size, find_bytes, interpret_answer, parse_response, request_head, unreadable,
    ResponseStep,
};
use phonebridge::integrations::wda_requests::{
    judge_status, read_session, read_size, safe_session_name, session_path, session_request,
    status_request, text_batches, ScreenSize, WdaMethod, WDA_TEXT_BATCH_CHARS,
};
use phonebridge::integrations::AdapterError;
use phonebridge::json::parse_json;

fn done(b: &[u8]) -> (u16, Vec<u8>, usize) {
    match parse_response(b) {
        ResponseStep::Done { status, body, used } => (status, body, used),
        other => panic!("not whole: {other:?}"),
    }
}

#[test]
fn an_answer_with_a_length_is_read() {
    let (status, body, used) =
        done(b"HTTP/1.1 200 OK\r\nContent-Length: 5\r\nX: y\r\n\r\nhelloREST");
    assert_eq!(status, 200);
    assert_eq!(body, b"hello");
    assert_eq!(used, 49);
}

#[test]
fn an_answer_in_chunks_is_read() {
    let (status, body, _) = done(
        b"HTTP/1.1 404 Not Found\r\nTransfer-Encoding: chunked\r\n\r\n4\r\nWiki\r\n5;x=y\r\npedia\r\n0\r\n\r\n",
    );
    assert_eq!(status, 404);
    assert_eq!(body, b"Wikipedia");
}

#[test]
fn a_whole_answer_stays_the_same_when_more_comes() {
    let whole = b"HTTP/1.1 200 OK\r\nContent-Length: 2\r\n\r\nok".to_vec();
    let mut more = whole.clone();
    more.extend_from_slice(b"HTTP/1.1 500");
    assert_eq!(done(&whole), done(&more));
    for n in 0..whole.len() {
        assert!(matches!(parse_response(&whole[..n]), ResponseStep::NeedMore));
    }
}

#[test]
fn an_answer_without_a_length_goes_on_to_the_end() {
    match parse_response(b"HTTP/1.1 200 OK\r\n\r\nabc") {
        ResponseStep::ToClose { status, body_start } => {
            assert_eq!(status, 200);
            assert_eq!(body_start, 19);
        }
        other => panic!("{other:?}"),
    }
}

#[test]
fn answers_that_cannot_be_read_are_reported() {
    let bad = parse_response(b"nonsense\r\n\r\n");
    assert!(matches!(bad, ResponseStep::BadStatus));
    assert!(unreadable(&bad).is_some());
    let bad = parse_response(b"HTTP/1.1 200 OK\r\nTransfer-Encoding: chunked\r\n\r\nzz\r\n");
    assert!(matches!(bad, ResponseStep::BadChunk));
    assert!(unreadable(&bad).is_some());
    assert!(unreadable(&ResponseStep::NeedMore).is_none());
}

#[test]
fn bytes_are_found_at_their_first_place() {
    assert_eq!(find_bytes(b"abcabc", b"bc"), Some(1));
    assert_eq!(find_bytes(b"abc", b"d"), None);
    assert_eq!(chunk_size("1a;name=value"), Some(26));
    assert_eq!(chunk_size("x"), None);
}

#[test]
fn requests_are_written_as_http() {
    let head = request_head("GET", "/status", "127.0.0.1:8100", None);
    assert!(head.starts_with("GET /status HTTP/1.1\r\nHost: 127.0.0.1:8100\r\n"));
    assert!(head.ends_with("\r\n\r\n"));
    let head = request_head("POST", "/session", "127.0.0.1:8100", Some(12));
    assert!(head.contains("Content-Length: 12\r\n"));
}

#[test]
fn answers_are_judged_by_status_and_content() {
    assert!(interpret_answer("GET", "/status", 200, br#"{"value":{"ready":true}}"#).is_ok());
    assert!(interpret_answer("GET", "/status", 500, br#"{"value":{}}"#).is_err());
    assert!(interpret_answer("GET", "/status", 200, b"no json").is_err());
    assert!(judge_status(&parse_json(r#"{"value":{"ready":true}}"#).unwrap()).is_ok());
    assert!(judge_status(&parse_json(r#"{"ready":true}"#).unwrap()).is_err());
}

#[test]
fn sessions_and_sizes_are_read() {
    let v = parse_json(r#"{"sessionId":"ABC-123","value":{}}"#).unwrap();
    assert_eq!(read_session(&v).unwrap(), "ABC-123");
    let v = parse_json(r#"{"value":{"sessionId":"ABC-123"}}"#).unwrap();
    assert_eq!(read_session(&v).unwrap(), "ABC-123");
    assert!(read_session(&parse_json(r#"{"value":{}}"#).unwrap()).is_err());
    let v = parse_json(r#"{"value":{"width":393,"height":852}}"#).unwrap();
    let size = read_size(&v).unwrap();
    assert_eq!((size.width, size.height), (393, 852));
    for bad in [
        r#"{"value":{"height":852}}"#,
        r#"{"value":{"width":393.5,"height":852}}"#,
        r#"{"value":{"width":-1,"height":852}}"#,
        r#"{"value":{"width":393,"height":"852"}}"#,
    ] {
        assert!(read_size(&parse_json(bad).unwrap()).is_err(), "{bad}");
    }
}

#[test]
fn only_plain_session_names_enter_a_path() {
    assert!(safe_session_name("ABC-123_x"));
    assert!(!safe_session_name("a/b"));
    assert!(!safe_session_name(""));
    assert_eq!(session_path("AB", "/actions").unwrap(), "/session/AB/actions");
    assert!(session_path("", "/actions").is_err());
    let v = parse_json(r#"{"sessionId":"../x"}"#).unwrap();
    assert!(read_session(&v).is_err());
    assert!(matches!(status_request().method, WdaMethod::Get));
    let request = session_request(&Some("UDID".into()));
    assert!(matches!(request.method, WdaMethod::Post));
    assert_eq!(request.path, "/session");
    assert!(request.body.unwrap().contains("UDID"));
}

#[test]
fn long_texts_are_typed_in_batches() {
    let text: String = "中文🙂ab".chars().cycle().take(300).collect();
    let batches = text_batches(&text);
    assert_eq!(batches.concat(), text);
    assert!(batches.iter().all(|b| b.chars().count() <= WDA_TEXT_BATCH_CHARS));
    assert_eq!(batches.len(), 3);
}

fn phone(id: &str, state: &str) -> UsbDevice {
    UsbDevice {
        kind: UsbDeviceKind::Iphone,
        name: "iPhone".into(),
        id_masked: phonebridge::integrations::usb_devices::mask_id(id),
        raw_id: id.into(),
        state: state.into(),
    }
}

fn no_settings() -> WdaSettings {
    WdaSettings {
        url: None,
        udid: None,
        session: None,
    }
}

fn json(s: &str) -> Result<phonebridge::json::JsonValue, AdapterError> {
    Ok(parse_json(s).unwrap())
}

#[test]
fn a_phone_is_connected_through_a_tunnel() {
    let ports = WdaEndpoints::new();
    let stage = begin_connection(&no_settings(), &ports, WdaPurpose::Control, "iphone:***CDEF");
    assert!(matches!(&stage, WdaStage::LookUp { token } if token == "***CDEF"));
    let stage = stage.devices_listed(&ports, &vec![phone("0123456789ABCDEF", "connected")]);
    assert!(matches!(&stage, WdaStage::FindTool { udid } if udid == "0123456789ABCDEF"));
    let stage = stage.tool_looked_for(WdaPurpose::Control, true);
    let stage = stage.port_found(Ok(40000));
    assert!(matches!(&stage, WdaStage::StartTunnel { port: 40000, .. }));
    let stage = stage.tunnel_started(None);
    match &stage {
        WdaStage::Probe {
            endpoint, tunnel, ..
        } => {
            assert_eq!(endpoint.address(), "127.0.0.1:40000");
            assert!(tunnel);
        }
        other => panic!("{other:?}"),
    }
    let stage = stage.probed(WdaPurpose::Control, &None, false, Ok(()), true);
    assert!(matches!(&stage, WdaStage::OpenSession { tunnel: true, .. }));
    let stage = stage.session_answered(json(r#"{"value":{"sessionId":"S-1"}}"#));
    assert!(matches!(&stage, WdaStage::ReadSize { owned: true, .. }));
    let stage = stage.size_answered(json(r#"{"value":{"width":393,"height":852}}"#), None);
    let control = stage.control().unwrap();
    assert_eq!(control.session_id, "S-1");
    assert_eq!((control.target_size().width, control.target_size().height), (393, 852));
    assert!(control.owns_session);
}

#[test]
fn a_connection_that_fails_leaves_nothing_open() {
    let ports = WdaEndpoints::new();
    let stage = begin_connection(&no_settings(), &ports, WdaPurpose::Control, "iphone:UDID-0001");
    let stage = stage
        .tool_looked_for(WdaPurpose::Control, true)
        .port_found(Ok(40000))
        .tunnel_started(None)
        .probed(WdaPurpose::Control, &None, false, Ok(()), true)
        .session_answered(json(r#"{"value":{"sessionId":"S-1"}}"#))
        .size_answered(json(r#"{"value":{}}"#), None);
    assert!(matches!(&stage, WdaStage::EndSession { session, tunnel: true, .. } if session == "S-1"));
    assert!(matches!(stage.session_ended(), WdaStage::Failed { tunnel: true, .. }));
}

#[test]
fn a_phone_without_a_tool_or_a_port_is_not_connected() {
    let ports = WdaEndpoints::new();
    let begin = || begin_connection(&no_settings(), &ports, WdaPurpose::Control, "iphone:UDID-0001");
    assert!(matches!(
        begin().tool_looked_for(WdaPurpose::Control, false),
        WdaStage::Failed { tunnel: false, .. }
    ));
    assert!(matches!(
        begin()
            .tool_looked_for(WdaPurpose::Control, true)
            .port_found(Err(AdapterError::Failed("none".into()))),
        WdaStage::Failed { tunnel: false, .. }
    ));
    assert!(matches!(
        begin()
            .tool_looked_for(WdaPurpose::Control, true)
            .port_found(Ok(1))
            .tunnel_started(Some("broken".into())),
        WdaStage::Failed { .. }
    ));
}

#[test]
fn urls_that_leave_this_machine_are_refused() {
    let mut settings = no_settings();
    settings.url = Some("http://192.168.1.8:8100".into());
    let ports = WdaEndpoints::new();
    assert!(matches!(
        begin_connection(&settings, &ports, WdaPurpose::Control, "iphone:x"),
        WdaStage::Failed { tunnel: false, .. }
    ));
    settings.url = Some("http://localhost:8100".into());
    assert!(matches!(
        begin_connection(&settings, &ports, WdaPurpose::Control, "iphone:x"),
        WdaStage::Probe { tunnel: false, .. }
    ));
}

#[test]
fn registered_ports_are_used_and_forgotten() {
    let mut ports = WdaEndpoints::new();
    ports.register_wda_endpoint("UDID-0001", 9100);
    ports.register_wda_endpoint("UDID-0001", 9101);
    assert_eq!(ports.registered_wda_endpoint("UDID-0001").unwrap().port, 9101);
    let stage = begin_connection(&no_settings(), &ports, WdaPurpose::Check, "UDID-0001");
    assert!(matches!(&stage, WdaStage::Probe { endpoint, .. } if endpoint.port == 9101));
    let mut others = WdaEndpoints::new();
    others.register_wda_endpoint("UDID-0001", 1);
    ports.register_wda_endpoint("UDID-0002", 9102);
    ports.forget_all_of(&others);
    assert!(ports.registered_wda_endpoint("UDID-0001").is_none());
    assert_eq!(ports.phones(), vec!["UDID-0002".to_string()]);
    ports.unregister_wda_endpoint("UDID-0002");
    assert!(ports.phones().is_empty());
}

fn control() -> IosUsbControl {
    IosUsbControl {
        session_id: "S-1".into(),
        target_size: ScreenSize {
            width: 393,
            height: 852,
        },
        pointer_active: false,
        owns_session: true,
    }
}

fn body(s: &Option<String>) -> serde_json::Value {
    serde_json::from_str(s.as_ref().unwrap()).unwrap()
}

#[test]
fn fingers_go_down_and_up_where_they_are() {
    let mut c = control();
    let source = ScreenSize {
        width: 480,
        height: 1040,
    };
    assert!(c.pointer_move(source, 1, 1).unwrap().is_none());
    let down = c.pointer_button(source, 479, 1039, true).unwrap();
    assert_eq!(down.path, "/session/S-1/actions");
    let actions = body(&down.body)["actions"][0]["actions"].clone();
    assert_eq!(actions[0]["type"], "pointerMove");
    assert_eq!(actions[0]["x"], 392);
    assert_eq!(actions[0]["y"], 851);
    assert_eq!(actions[1]["type"], "pointerDown");
    c.button_sent(true, true);
    assert!(c.pointer_move(source, 1, 1).unwrap().is_some());
    let lifted = c.release_all();
    assert!(!lifted.is_empty());
    assert!(!c.pointer_active);
    assert!(c.pointer_button(ScreenSize { width: 0, height: 1 }, 0, 0, true).is_err());
}

#[test]
fn keys_that_go_down_come_up() {
    let c = control();
    let request = c.key_stroke("KeyA", "a", true, true, false, false).unwrap();
    let actions = body(&request.body)["actions"][0]["actions"].clone();
    let mut held: Vec<String> = Vec::new();
    for a in actions.as_array().unwrap() {
        let v = a["value"].as_str().unwrap().to_string();
        if a["type"] == "keyDown" {
            held.push(v);
        } else {
            assert_eq!(a["type"], "keyUp");
            assert!(held.contains(&v));
            held.retain(|h| *h != v);
        }
    }
    assert!(held.is_empty());
    assert!(c.key_stroke("Unknown", "中文", false, false, false, false).is_err());
}

#[test]
fn closing_ends_only_the_own_session() {
    let mut own = control();
    assert!(own
        .close()
        .iter()
        .any(|r| matches!(r.method, WdaMethod::Delete) && r.path == "/session/S-1"));
    assert!(own.owns_session && own.session_id.is_empty());
    assert_eq!(own.target_size, control().target_size);
    let mut other = control();
    other.owns_session = false;
    assert!(other
        .close()
        .iter()
        .all(|r| r.path != "/session/S-1"));
}

#[test]
fn wheels_and_texts_become_requests() {
    let c = control();
    let wheel = c.wheel(120).unwrap();
    assert_eq!(body(&wheel.body)["actions"][0]["type"], "wheel");
    let typed = c.text("你好").unwrap();
    assert_eq!(typed.len(), 1);
    assert_eq!(body(&typed[0].body)["value"][0], "你好");
}

#[test]
fn the_way_over_usb_is_described() {
    let parts = WdaParts {
        iproxy: true,
        artifact: false,
        installer: false,
        go_ios: false,
    };
    let c = inspect_capability(parts, ConfiguredWda::Absent);
    assert!(!c.wda_reachable);
    assert!(c.iproxy_present);
    let c = inspect_capability(parts, ConfiguredWda::Answered);
    assert!(c.wda_reachable);
    for bad in [
        ConfiguredWda::BadUrl(AdapterError::Failed("x".into())),
        ConfiguredWda::NoConnection(AdapterError::Failed("x".into())),
        ConfiguredWda::NoAnswer(AdapterError::Failed("x".into())),
    ] {
        let c = inspect_capability(parts, bad);
        assert!(!c.wda_reachable);
        assert!(c.detail.contains('x'));
    }
}
