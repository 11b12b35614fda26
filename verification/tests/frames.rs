//! Frames: the test picture, decoding, and the channel to the window.
use std::sync::Arc;

use phonebridge::integrations::ffmpeg_bridge::{ffmpeg_info, FFmpegVideoDecoder};
use phonebridge::integrations::frame_bridge::{
    generate_test_frame, FrameSink, RgbaFrame, VideoDecoder,
};
use phonebridge::session::frame_events::{ChannelMessage, ChannelSink, ChannelState};

struct MemSink {
    frames: Vec<RgbaFrame>,
}

impl FrameSink for MemSink {
    fn push(&mut self, frame: &RgbaFrame) {
        self.frames.push(frame.clone());
    }

    fn on_size(&mut self, _w: u32, _h: u32) {}

    fn acknowledge(&mut self, _sequence: u64) {}
}

#[test]
fn test_frame_dimensions_and_rgba_len() {
    let f = generate_test_frame(320, 240, 7);
    assert_eq!(f.width, 320);
    assert_eq!(f.height, 240);
    assert_eq!(f.rgba.len(), 320 * 240 * 4);
    assert_eq!(f.rgba[3], 255); // alpha
}

#[test]
fn zero_size_is_guarded_to_non_empty() {
    // 0 尺寸被保护为 1x1，避免除零/空缓冲区；帧不应为空。
    let f = generate_test_frame(0, 0, 0);
    assert_eq!(f.width, 1);
    assert_eq!(f.height, 1);
    assert_eq!(f.rgba.len(), 4);
}

#[test]
fn decode_status_default_unavailable_without_feature() {
    // 默认构建（无 video-decode）下解码器不可用，但不 panic。
    assert!(VideoDecoder::try_create(false, true, 1920, 1080).is_err());
    assert!(VideoDecoder::try_create(true, false, 1920, 1080).is_err());
    assert!(VideoDecoder::try_create(true, true, 1920, 1080).is_ok());
}

#[test]
fn frame_sink_pushes() {
    let mut sink = MemSink { frames: Vec::new() };
    let f = generate_test_frame(16, 16, 1);
    sink.push(&f);
    assert_eq!(sink.frames.len(), 1);
}

#[test]
fn ffmpeg_detect_does_not_panic() {
    let info = ffmpeg_info(None);
    assert!(!info.available);
    assert_eq!(info.version, None);
    let info = ffmpeg_info(Some("ffmpeg version 7.1\nbuilt with clang\n".into()));
    assert!(info.available);
    assert_eq!(info.version.as_deref(), Some("ffmpeg version 7.1"));
}

#[test]
fn decode_empty_yields_none() {
    if let Ok(d) = FFmpegVideoDecoder::new(true, 64, 64) {
        assert!(d
            .decode_h264(&[], 64, 64, Ok(Vec::new()))
            .unwrap_or(None)
            .is_none());
    }
    assert!(FFmpegVideoDecoder::new(false, 64, 64).is_err());
}

#[test]
fn a_whole_picture_is_decoded() {
    let d = FFmpegVideoDecoder::new(true, 2, 2).unwrap();
    let frame = d
        .decode_h264(&[1], 0, 0, Ok((0..16).collect()))
        .unwrap()
        .unwrap();
    assert_eq!((frame.width, frame.height), (2, 2));
    assert_eq!(frame.rgba.as_slice(), (0..16).collect::<Vec<u8>>().as_slice());
}

#[test]
fn packet_builder_adds_protocol_header_and_sequence() {
    let mut state = ChannelState {
        next_sequence: 7,
        in_flight: None,
        pending: None,
    };
    let frame = RgbaFrame {
        width: 1,
        height: 1,
        rgba: Arc::new(vec![1_u8, 2, 3, 4]),
    };

    let packet = ChannelSink::make_packet(&mut state, &frame);

    assert_eq!(packet.sequence, 7);
    assert_eq!(state.next_sequence, 8);
    assert_eq!(&packet.bytes[..4], b"PBFR");
    assert_eq!(
        u64::from_le_bytes(packet.bytes[4..12].try_into().unwrap()),
        7
    );
    assert_eq!(&packet.bytes[12..], &[1, 2, 3, 4]);
}

fn frame(n: u8) -> RgbaFrame {
    RgbaFrame {
        width: 1,
        height: 1,
        rgba: Arc::new(vec![n; 4]),
    }
}

fn sent(sink: &mut ChannelSink) -> Vec<(u64, u8)> {
    std::mem::take(&mut sink.outbox)
        .into_iter()
        .filter_map(|m| match m {
            ChannelMessage::Frame(f) => Some((f.sequence, f.bytes[12])),
            _ => None,
        })
        .collect()
}

#[test]
fn one_frame_is_under_way_and_the_newest_waits() {
    let mut sink = ChannelSink::new();
    sink.push(&frame(10));
    sink.push(&frame(11));
    sink.push(&frame(12));
    assert_eq!(sent(&mut sink), vec![(1, 10)]);
    sink.acknowledge(9);
    assert_eq!(sent(&mut sink), vec![]);
    sink.acknowledge(1);
    assert_eq!(sent(&mut sink), vec![(2, 12)]);
    sink.acknowledge(2);
    assert_eq!(sent(&mut sink), vec![]);
    sink.push(&frame(13));
    assert_eq!(sent(&mut sink), vec![(3, 13)]);
}

#[test]
fn a_refused_frame_does_not_block_the_channel() {
    let mut sink = ChannelSink::new();
    sink.push(&frame(10));
    assert_eq!(sent(&mut sink), vec![(1, 10)]);
    sink.push(&frame(9));
    sink.refused(7);
    assert_eq!(sink.state.in_flight, Some(1));
    sink.refused(1);
    assert_eq!(sink.state.in_flight, None);
    assert!(sink.state.pending.is_none());
    sink.push(&frame(11));
    assert_eq!(sent(&mut sink), vec![(2, 11)]);
}

#[test]
fn sizes_are_sent_as_json() {
    let mut sink = ChannelSink::new();
    sink.on_size(480, 1040);
    match std::mem::take(&mut sink.outbox).pop() {
        Some(ChannelMessage::Size(text)) => {
            let v: serde_json::Value = serde_json::from_str(&text).unwrap();
            assert_eq!(v["width"], 480);
            assert_eq!(v["height"], 1040);
        }
        other => panic!("no size: {other:?}"),
    }
}
