//! Mirroring Android.
use phonebridge::integrations::android_frame::{
    check_start, control_connection, first_file, judge_attempt, keycode_packet, needs_cleanup,
    needs_server_stop, scaled_dimensions, scrcpy_server_candidates, scroll_axis, scroll_packet,
    server_arguments, text_packet, touch_packet, video_connection, AndroidScreenSource,
    AttemptError, AttemptVerdict, ConnectionOutcome, ScidCounter, ScrcpyControl, ScreenAction, ScreenFailure, ScreenStart,
    StreamFailure, MAX_FRAME_DIMENSION,
};
use phonebridge::integrations::{AdapterError, HostPlatform};

#[test]
fn frame_dimensions_are_even_and_bounded() {
    assert_eq!(scaled_dimensions(1080, 2340), (498, 1080));
    assert_eq!(scaled_dimensions(2340, 1080), (1080, 498));
    assert_eq!(scaled_dimensions(360, 640), (360, 640));
    let (_, height) = scaled_dimensions(1, 1);
    assert_eq!(height % 2, 0);
}

#[test]
fn server_socket_id_is_hex_and_31_bit() {
    let mut counter = ScidCounter::new();
    let id = counter.next_scid();
    assert_eq!(id.len(), 8);
    assert!(id.chars().all(|c| c.is_ascii_hexdigit()));
    assert!(u32::from_str_radix(&id, 16).unwrap() <= 0x7fff_ffff);
    assert_ne!(counter.next_scid(), id);
}

#[test]
fn start_without_dependencies_reports_missing() {
    let source = AndroidScreenSource::new(320, 640);
    assert_eq!(source.dimensions(), (320, 640));
    let result = check_start(false, false, false, "/nonexistent/adb", false);
    assert!(result.is_err());
}

#[test]
fn scrcpy_control_packets_have_protocol_sizes() {
    assert_eq!(keycode_packet(0, 29, 0, 0).len(), 14);
    assert_eq!(text_packet("你好").unwrap().len(), 5 + "你好".len());
    assert_eq!(touch_packet(0, 0, 1, 2, 1080, 2340, u16::MAX, 0, 0).len(), 32);
    assert_eq!(scroll_packet(1, 2, 1080, 2340, 0, -1, 0).len(), 21);
}

#[test]
fn scroll_axis_is_limited_to_scrcpy_range() {
    assert_eq!(scroll_axis(100), 16);
    assert_eq!(scroll_axis(-100), -16);
    assert_eq!(scroll_axis(1.4_f32.round() as i32), 1);
}

#[test]
fn frames_of_any_screen_are_even_and_bounded() {
    for (w, h) in [(1, 1), (3, 5), (u32::MAX, 1), (1, u32::MAX), (u32::MAX, u32::MAX), (1081, 1080)] {
        let (a, b) = scaled_dimensions(w, h);
        assert!(a % 2 == 0 && b % 2 == 0 && a >= 2 && b >= 2);
        assert!(a <= MAX_FRAME_DIMENSION && b <= MAX_FRAME_DIMENSION);
    }
}

#[test]
fn messages_are_laid_out_as_the_protocol_says() {
    assert_eq!(
        keycode_packet(1, 29, 0, 0x1001),
        vec![0, 1, 0, 0, 0, 29, 0, 0, 0, 0, 0, 0, 0x10, 0x01]
    );
    assert_eq!(text_packet("ab").unwrap(), vec![1, 0, 0, 0, 2, b'a', b'b']);
    let touch = touch_packet(2, 0xffff_ffff_ffff_fffe, 1, 2, 1080, 2340, 0xffff, 0, 0);
    assert_eq!(touch[..2], [2, 2]);
    assert_eq!(touch[2..10], [255, 255, 255, 255, 255, 255, 255, 254]);
    assert_eq!(touch[18..24], [4, 56, 9, 36, 255, 255]);
    let scroll = scroll_packet(1, 2, 1080, 2340, 0, -1, 0);
    assert_eq!(scroll[0], 3);
}

#[test]
fn mirroring_starts_with_a_tunnel_either_way() {
    let mut s = ScreenStart::begin();
    let mut seen = Vec::new();
    while !matches!(s.action, ScreenAction::Started | ScreenAction::Fail(_)) {
        seen.push(s.action);
        let ok = s.action != ScreenAction::SetupReverse;
        s.advance(ok);
    }
    assert_eq!(
        seen,
        vec![
            ScreenAction::Listen,
            ScreenAction::PushServer,
            ScreenAction::SetupReverse,
            ScreenAction::SetupForward,
            ScreenAction::StartServer,
            ScreenAction::StartDecoder
        ]
    );
    assert!(s.tunnel_forward);
    let mut s = ScreenStart::begin();
    s.advance(false);
    assert_eq!(s.action, ScreenAction::Fail(ScreenFailure::Listen));
    assert!(!needs_cleanup(ScreenFailure::Listen));
    assert!(needs_cleanup(ScreenFailure::StartDecoder));
    assert!(needs_server_stop(ScreenFailure::StartDecoder));
    assert!(!needs_server_stop(ScreenFailure::StartServer));
}

#[test]
fn each_missing_part_is_named() {
    assert!(matches!(
        check_start(true, true, true, "/adb", true),
        Err(AdapterError::Busy(_))
    ));
    assert!(check_start(false, false, true, "/adb", true).is_err());
    assert!(check_start(false, true, false, "/adb", true).is_err());
    assert!(check_start(false, true, true, "/adb", false).is_err());
    assert!(check_start(false, true, true, "/adb", true).is_ok());
}

#[test]
fn connections_that_do_not_come_are_reported() {
    assert!(video_connection(ConnectionOutcome::Connected).is_ok());
    assert!(matches!(
        video_connection(ConnectionOutcome::Gone),
        Err(StreamFailure::VideoTimeout)
    ));
    assert!(matches!(
        video_connection(ConnectionOutcome::Failed("x".into())),
        Err(StreamFailure::VideoRefused(_))
    ));
    assert!(control_connection(ConnectionOutcome::Connected).0);
    assert!(!control_connection(ConnectionOutcome::Gone).0);
    for f in [
        StreamFailure::VideoTimeout,
        StreamFailure::VideoNotOpened,
        StreamFailure::VideoClosed,
        StreamFailure::DecoderClosed,
        StreamFailure::VideoUnreadable("x".into()),
        StreamFailure::FrameUnreadable("x".into()),
    ] {
        assert!(!f.describe().is_empty());
    }
}

#[test]
fn control_messages_need_a_connection() {
    let mut c = ScrcpyControl::new();
    assert!(!c.is_connected());
    assert!(c.touch_down(1, 2, 3, 4).is_err());
    c.connected = true;
    assert_eq!(c.touch_down(1, 2, 3, 4).unwrap().len(), 32);
    c.write_failed("closed");
    assert!(!c.is_connected());
}

#[test]
fn the_server_is_looked_for_in_order() {
    let paths = scrcpy_server_candidates(HostPlatform::Other, &Some("/mine".into()), "/res", &None);
    assert_eq!(paths[0], "/mine");
    let mut there = vec![false; paths.len()];
    there[1] = true;
    assert_eq!(first_file(&paths, &there), Some(paths[1].clone()));
    assert_eq!(first_file(&paths, &vec![false; paths.len()]), None);
    assert!(server_arguments("S", "01234567", true)
        .iter()
        .any(|a| a.contains("tunnel_forward=true")));
}

#[test]
fn attempts_to_connect_are_repeated_until_the_time_is_up() {
    let passing = [
        AttemptError::ConnectionRefused,
        AttemptError::ConnectionReset,
        AttemptError::NotFound,
    ];
    for kind in passing {
        assert_eq!(judge_attempt(false, kind, false), AttemptVerdict::Retry);
        assert_eq!(judge_attempt(false, kind, true), AttemptVerdict::GiveUp);
        assert_eq!(judge_attempt(true, kind, false), AttemptVerdict::Fail);
        assert_eq!(judge_attempt(true, kind, true), AttemptVerdict::Fail);
    }
    for kind in [AttemptError::WouldBlock, AttemptError::Other] {
        assert_eq!(judge_attempt(false, kind, false), AttemptVerdict::Fail);
        assert_eq!(judge_attempt(false, kind, true), AttemptVerdict::GiveUp);
    }
    let waiting = AttemptError::WouldBlock;
    assert_eq!(judge_attempt(true, waiting, false), AttemptVerdict::Retry);
    assert_eq!(judge_attempt(true, waiting, true), AttemptVerdict::GiveUp);
    assert_eq!(judge_attempt(true, AttemptError::Other, true), AttemptVerdict::Fail);
}
