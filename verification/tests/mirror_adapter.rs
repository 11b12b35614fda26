//! The AirPlay receiver.
use std::sync::Arc;

use phonebridge::integrations::frame_bridge::{FrameSink, RgbaFrame};
use phonebridge::integrations::mirror_adapter::{
    check_start, choose_runtime, is_uxplay_connected_log, looks_like_ipv4_with_port,
    macos_video_converter, parse_orphan_line, parse_resolution, read_stderr_line,
    read_stdout_line, redact_log_token, report_rtp_failure, sanitize_log_line, stale_receivers,
    stale_receivers_printed, stream_description, undo_of, uxplay_package_state, Codec,
    DecoderLog, DecoderRace, ExitVerdict, FrameVerdict, MirrorEvent, RtpAction, RtpFailure,
    RtpLeftover, RtpReply, RtpStart, RuntimeProbe, UxPlayConfig, UxPlayMirrorAdapter,
    IOS_OUTPUT_HEIGHT, IOS_OUTPUT_WIDTH, MAX_DECODER_LOG_LINES,
};
use phonebridge::integrations::HostPlatform;

#[derive(Default)]
struct TestSink {
    frames: Vec<RgbaFrame>,
    sizes: Vec<(u32, u32)>,
}

impl FrameSink for TestSink {
    fn push(&mut self, frame: &RgbaFrame) {
        self.frames.push(frame.clone());
    }

    fn on_size(&mut self, width: u32, height: u32) {
        self.sizes.push((width, height));
    }

    fn acknowledge(&mut self, _sequence: u64) {}
}

#[test]
fn parses_resolution() {
    assert_eq!(parse_resolution("video  1920x1080 @60"), Some((1920, 1080)));
    assert_eq!(parse_resolution("800 x 600"), Some((800, 600)));
    assert_eq!(parse_resolution("no resolution here"), None);
    assert_eq!(parse_resolution("120x80"), None);
}

#[test]
fn recognizes_airplay_connection_logs_without_matching_waiting_logs() {
    assert!(is_uxplay_connected_log(
        "new request, connection 0, socket 19 type RAOP"
    ));
    assert!(is_uxplay_connected_log("POST /feedback RTSP/1.0"));
    assert!(is_uxplay_connected_log(
        "Received video streaming performance info packet"
    ));
    assert!(!is_uxplay_connected_log("iOS 正在等待 AirPlay 连接"));
    assert!(!is_uxplay_connected_log(
        "register_dnssd: advertised AirPlay service"
    ));
}

#[test]
fn sanitize_truncates_long_lines() {
    let long = "x".repeat(2000);
    let out = sanitize_log_line(&long);
    assert!(out.len() <= 512 + 32);
    assert!(out.contains("截断"));
}

#[test]
fn orphan_line_parsing_matches_only_our_uxplay() {
    let path = "/app/Resources/binaries/uxplay";
    let ours = format!(
        "12345 /app/Resources/binaries/uxplay -n {} -nh -p 6000 -h265 -s 1920x1080@30",
        phonebridge::APP_NAME
    );
    // 匹配本应用分发的 uxplay + 快投屏服务名
    assert_eq!(parse_orphan_line(&ours, path, 999), Some(12345));
    // 当前进程忽略
    assert_eq!(parse_orphan_line(&ours, path, 12345), None);
    // 第三方 uxplay（不同路径）
    assert_eq!(
        parse_orphan_line("23456 /usr/local/bin/uxplay -n OtherSvc -nh", path, 999),
        None
    );
    // 本路径但无快投屏服务名（可能是其它用途/早期版本参数）
    assert_eq!(
        parse_orphan_line(
            "34567 /app/Resources/binaries/uxplay -nh -p 6000",
            path,
            999
        ),
        None
    );
    // 垃圾行 / 空行
    assert_eq!(parse_orphan_line("not a ps line", path, 999), None);
    assert_eq!(parse_orphan_line("", path, 999), None);
}

#[test]
fn sanitize_redacts_network_identity() {
    assert_eq!(
        sanitize_log_line("client 01:23:45:67:89:ab 192.168.1.10"),
        "client [地址已脱敏] [地址已脱敏]"
    );
    assert_eq!(sanitize_log_line("time 06:08:37.827"), "time 06:08:37.827");
}

#[test]
fn config_defaults() {
    let config = UxPlayConfig::default();
    assert_eq!(config.service_name, phonebridge::APP_NAME);
    assert_eq!(config.port, 6000);
}

#[test]
fn macos_converter_scales_before_fixing_size() {
    let s = macos_video_converter(IOS_OUTPUT_WIDTH, IOS_OUTPUT_HEIGHT);

    // videoconvert 只转格式/色彩空间，不能缩放；宽高 caps 必须出现在
    // videoscale 之后，否则首帧 caps 协商失败、连接立即断开。
    let scale_at = s.find("videoscale").expect("缺少 videoscale");
    let size_at = s.find("width=").expect("缺少输出尺寸 caps");
    assert!(
        scale_at < size_at,
        "尺寸 caps 不得位于 videoscale 之前：{s}"
    );

    // 格式与输出尺寸必须与 Rust 端整帧读取的契约一致。
    assert!(s.contains("format=RGBA"));
    assert!(s.contains(&format!(
        "width={IOS_OUTPUT_WIDTH},height={IOS_OUTPUT_HEIGHT}"
    )));

    // 回归保护：旧写法在 videoconvert 输出侧直接强制 480x1040，
    // videoconvert 无法产生产出该尺寸，属于历史发病写法。
    assert!(s.starts_with("videoconvert ! video/x-raw,format=RGBA ! videoscale"));
    assert!(!s.contains("format=RGBA,width="));
}

#[test]
fn attach_sink_replays_latest_frame() {
    let mut adapter = UxPlayMirrorAdapter::new(UxPlayConfig::default());
    let frame = RgbaFrame {
        width: IOS_OUTPUT_WIDTH,
        height: IOS_OUTPUT_HEIGHT,
        rgba: Arc::new(vec![255, 0, 0, 255]),
    };
    adapter.latest_frame = Some(frame.clone());

    let mut sink = TestSink::default();
    adapter.attach_sink(&mut sink);

    assert_eq!(
        sink.sizes.as_slice(),
        &[(IOS_OUTPUT_WIDTH, IOS_OUTPUT_HEIGHT)]
    );
    assert_eq!(sink.frames.len(), 1);
    assert_eq!(sink.frames[0].width, frame.width);
    assert_eq!(sink.frames[0].height, frame.height);
    assert_eq!(sink.frames[0].rgba, frame.rgba);
}

#[test]
fn the_receiver_starts_behind_two_decoders() {
    let mut s = RtpStart::begin();
    let mut ports = [7000, 7000, 7002].into_iter();
    let mut seen = Vec::new();
    while !matches!(s.action, RtpAction::Started | RtpAction::Fail(_)) {
        seen.push(s.action);
        let reply = if s.action == RtpAction::AllocatePort {
            RtpReply::Port(ports.next().unwrap())
        } else {
            RtpReply::Done
        };
        s.advance(reply, HostPlatform::Windows);
    }
    assert_eq!(s.action, RtpAction::Started);
    assert!(s.h264_port.is_some() && s.h265_port.is_some());
    assert_ne!(s.h264_port, s.h265_port);
    assert_eq!(*seen.last().unwrap(), RtpAction::SpawnReceiver);
    assert!(seen.contains(&RtpAction::SpawnDecoder(Codec::H264)));
    assert!(seen.contains(&RtpAction::SpawnDecoder(Codec::H265)));
}

#[test]
fn a_start_that_fails_is_undone() {
    assert!(undo_of(RtpFailure::NoPort).is_empty());
    let left = undo_of(RtpFailure::NoReceiver);
    for l in [
        RtpLeftover::Description(Codec::H264),
        RtpLeftover::Description(Codec::H265),
        RtpLeftover::Decoder(Codec::H264),
        RtpLeftover::Decoder(Codec::H265),
    ] {
        assert!(left.contains(&l), "{l:?}");
    }
    for f in [
        RtpFailure::NoPort,
        RtpFailure::NoDescription(Codec::H264),
        RtpFailure::NoDecoder(Codec::H265),
        RtpFailure::NoRuntime,
        RtpFailure::NoReceiver,
    ] {
        assert!(!report_rtp_failure(f, "why").message().is_empty());
    }
}

#[test]
fn the_first_decoder_with_a_frame_wins() {
    let mut race = DecoderRace::new();
    assert_eq!(race.decoder_exited(Codec::H265), ExitVerdict::Mismatch);
    let mut race = DecoderRace::new();
    assert_eq!(race.frame(Codec::H265), FrameVerdict::First);
    assert_eq!(race.frame(Codec::H265), FrameVerdict::Show);
    assert_eq!(race.frame(Codec::H264), FrameVerdict::Drop);
    assert_eq!(race.decoder_exited(Codec::H265), ExitVerdict::Crash);
    let mut race = DecoderRace::new();
    race.stop();
    assert_eq!(race.receiver_exited(), ExitVerdict::Nothing);
}

#[test]
fn log_lines_become_events() {
    let events = read_stdout_line("POST /feedback RTSP/1.0", true);
    assert!(events.iter().any(|e| matches!(e, MirrorEvent::MirrorConnected)));
    let events = read_stderr_line("video 1920x1080");
    assert!(events
        .iter()
        .any(|e| matches!(e, MirrorEvent::Metadata { width: 1920, height: 1080 })
            || matches!(e, MirrorEvent::LogLine(_))));
    assert!(read_stdout_line("", true).is_empty());
    let mut log = DecoderLog::new(Codec::H264);
    let kept = (0..100).filter(|i| log.line(&format!("line {i}")).is_some()).count();
    assert!(kept <= MAX_DECODER_LOG_LINES + 1);
}

#[test]
fn streams_are_described_with_their_port() {
    let s = stream_description(Codec::H264, 7000);
    assert!(s.contains("m=video 7000"));
    assert!(s.contains("H264"));
    assert!(stream_description(Codec::H265, 7000).contains("H265"));
}

#[test]
fn parts_of_the_receiver_are_checked() {
    let there = || Some(("/x".to_string(), true));
    assert!(check_start(HostPlatform::Windows, true, &there(), &there()).is_err());
    assert!(check_start(HostPlatform::Windows, false, &None, &there()).is_err());
    assert!(check_start(HostPlatform::Windows, false, &there(), &None).is_err());
    assert!(check_start(HostPlatform::Windows, false, &there(), &there()).is_ok());
    assert!(check_start(HostPlatform::MacOs, false, &there(), &None).is_ok());
    let (present, version, _) =
        uxplay_package_state(Some("1.73.6\n".into()), Ok(("/x".into(), true)));
    assert!(present);
    assert_eq!(version.as_deref(), Some("1.73.6"));
    assert!(!uxplay_package_state(None, Err("none".into())).0);
    let probe = |ok| RuntimeProbe {
        libraries: true,
        plugins: ok,
        scanner: true,
    };
    assert_eq!(choose_runtime(&vec![probe(false), probe(true)]), Some(1));
    assert_eq!(choose_runtime(&vec![probe(false)]), None);
}

#[test]
fn receivers_left_behind_are_found() {
    let ps = format!(
        "  12345 /app/uxplay -n {} -p 6000\n  23456 /usr/bin/uxplay -n Other\n  1 init\n",
        phonebridge::APP_NAME
    );
    assert_eq!(stale_receivers(&ps, &vec!["/app/uxplay".into()], 999), vec![12345]);
    assert!(stale_receivers(&ps, &vec!["/app/uxplay".into()], 12345).is_empty());
    let mut printed = ps.as_bytes().to_vec();
    let paths = vec!["/app/uxplay".into()];
    assert_eq!(stale_receivers_printed(printed.clone(), &paths, 999), vec![12345]);
    printed.push(0xff);
    assert!(stale_receivers_printed(printed, &paths, 999).is_empty());
}

#[test]
fn addresses_with_a_port_are_hidden() {
    assert_eq!(sanitize_log_line("peer 192.168.1.10:7000"), "peer [地址已脱敏]");
    assert_eq!(sanitize_log_line("peer (192.168.1.10:7000),"), "peer ([地址已脱敏]),");
    assert_eq!(redact_log_token("10.0.0.1:80"), "[地址已脱敏]");
    assert!(looks_like_ipv4_with_port("10.0.0.1:80"));
    for other in ["10.0.0.1", "10.0.0.1:", "10.0.0:80", "10.0.0.1:8o", "10.0.0.1:80:90", "7:8"] {
        assert!(!looks_like_ipv4_with_port(other), "{other}");
    }
    assert_eq!(redact_log_token("10.0.0:80"), "10.0.0:80");
    assert_eq!(redact_log_token("12:34"), "12:34");
}

#[test]
fn no_word_of_a_kept_line_is_an_address() {
    let line = format!("{} 10.0.0.1:80 01:23:45:67:89:ab 1.2.3.4", "x ".repeat(60));
    let kept = sanitize_log_line(&line);
    assert_eq!(kept.split_whitespace().count(), 63);
    for word in kept.split_whitespace() {
        assert_eq!(redact_log_token(word), word);
    }
    // A line that is cut inside a word does not end in an address.
    let line = format!("{} 10.0.0.123456", "x".repeat(502));
    let kept = sanitize_log_line(&line);
    assert_eq!(kept.split_whitespace().last(), Some("10.0.0.12…(截断)"));
}

#[test]
fn the_end_of_frames_that_are_not_shown_is_not_logged() {
    let mut race = DecoderRace::new();
    assert!(race.logs_end(Codec::H264, true));
    assert!(!race.logs_end(Codec::H264, false));
    race.frame(Codec::H264);
    assert!(race.logs_end(Codec::H264, false));
    assert!(!race.logs_end(Codec::H265, false));
    race.running = false;
    assert!(!race.logs_end(Codec::H264, true));
}
