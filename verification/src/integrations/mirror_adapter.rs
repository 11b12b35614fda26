//! The AirPlay receiver: how the `uxplay` program is found, started and watched, and what its
//! log lines mean.
//!
//! On macOS the receiver decodes by itself and writes frames into a pipe. Elsewhere it sends
//! the stream to two local ports, where one decoder for H.264 and one for H.265 wait; the
//! first one that puts out a whole frame wins, and the other is stopped.
use vstd::prelude::*;

use crate::integrations;
use crate::integrations::adb;
use crate::integrations::frame_bridge::{FrameSink, RgbaFrame, SinkCall};
use crate::integrations::{executable, path_below, AdapterError, HostPlatform};
use crate::seqs;
use crate::text;

verus! {

/// The width of the frames.
pub const IOS_OUTPUT_WIDTH: u32 = 480;

/// The height of the frames.
pub const IOS_OUTPUT_HEIGHT: u32 = 1040;

/// The number of log lines that a decoder may write.
pub const MAX_DECODER_LOG_LINES: usize = 24;

/// What the receiver reports.
#[derive(Debug, PartialEq, Eq)]
pub enum MirrorEvent<T = String> {
    /// The size of the stream; no frame has come yet.
    Metadata { width: u32, height: u32 },
    /// The control connection stands; the first frame may come later.
    MirrorConnected,
    /// The decoder has put out a frame.
    FirstFrame,
    /// A process has ended that should not.
    Crashed { source: T, exit_code: Option<i32> },
    /// A log line without addresses.
    LogLine(T),
}

impl View for MirrorEvent<String> {
    type V = MirrorEvent<Seq<char>>;

    open spec fn view(&self) -> MirrorEvent<Seq<char>> {
        match self {
            MirrorEvent::Metadata { width, height } => MirrorEvent::Metadata {
                width: *width,
                height: *height,
            },
            MirrorEvent::MirrorConnected => MirrorEvent::MirrorConnected,
            MirrorEvent::FirstFrame => MirrorEvent::FirstFrame,
            MirrorEvent::Crashed { source, exit_code } => MirrorEvent::Crashed {
                source: source@,
                exit_code: *exit_code,
            },
            MirrorEvent::LogLine(s) => MirrorEvent::LogLine(s@),
        }
    }
}

/// The contents of a list of events.
pub open spec fn event_views(v: Seq<MirrorEvent>) -> Seq<MirrorEvent<Seq<char>>> {
    Seq::new(v.len(), |i: int| v[i]@)
}

/// How the receiver is started.
pub struct UxPlayConfig {
    /// The name in the list of the phone.
    pub service_name: String,
    /// The first of the three ports that the receiver uses.
    pub port: u16,
}

impl Default for UxPlayConfig {
    fn default() -> (r: Self)
        ensures
            r.service_name@ == crate::APP_NAME@,
            r.port == 6000,
    {
        UxPlayConfig { service_name: text::own(crate::APP_NAME), port: 6000 }
    }
}

// ---------------------------------------------------------------------------
// Locating the receiver
// ---------------------------------------------------------------------------

/// The places of the receiver that ships with the application; `build_dir` is the directory
/// of a development build.
pub open spec fn shipped_uxplay(
    platform: HostPlatform,
    resources: Seq<char>,
    build_dir: Seq<char>,
) -> Seq<Seq<char>> {
    let exe = integrations::executable_name("uxplay"@, platform);
    let agent = "binaries/uxplay-agent.app/Contents/MacOS"@;
    (if platform is MacOs {
        seq![
            integrations::below(platform, integrations::below(platform, resources, agent), exe),
            integrations::below(platform, integrations::below(platform, build_dir, agent), exe),
            integrations::below(platform, integrations::below(platform, resources, "../MacOS"@), exe),
        ]
    } else {
        Seq::empty()
    }).push(integrations::below(platform, integrations::below(platform, resources, "binaries"@), exe))
}

/// The places of the receiver that ships with the application.
pub fn uxplay_path_candidates(platform: HostPlatform, resources: &str, build_dir: &str) -> (r: Vec<
    String,
>)
    ensures
        text::texts(r@) == shipped_uxplay(platform, resources@, build_dir@),
{
    let exe = executable("uxplay", platform);
    let agent = "binaries/uxplay-agent.app/Contents/MacOS";
    let mut out: Vec<String> = Vec::new();
    assert(text::texts(out@) =~= Seq::<Seq<char>>::empty());
    match platform {
        HostPlatform::MacOs => {
            let shipped = path_below(platform, resources, agent);
            let built = path_below(platform, build_dir, agent);
            let beside = path_below(platform, resources, "../MacOS");
            let a = path_below(platform, shipped.as_str(), exe.as_str());
            let b = path_below(platform, built.as_str(), exe.as_str());
            let c = path_below(platform, beside.as_str(), exe.as_str());
            adb::push_text(&mut out, a.as_str());
            adb::push_text(&mut out, b.as_str());
            adb::push_text(&mut out, c.as_str());
        },
        _ => {},
    }
    let binaries = path_below(platform, resources, "binaries");
    let last = path_below(platform, binaries.as_str(), exe.as_str());
    adb::push_text(&mut out, last.as_str());
    assert(text::texts(out@) =~= shipped_uxplay(platform, resources@, build_dir@));
    out
}

/// The files that are tried before the receiver is looked for like any other tool: those that
/// ship with the application, then the configured one.
pub fn uxplay_files(
    platform: HostPlatform,
    resources: &str,
    build_dir: &str,
    configured: &Option<String>,
) -> (r: Vec<String>)
    ensures
        text::texts(r@) == shipped_uxplay(platform, resources@, build_dir@) + (match *configured {
            Some(c) => seq![text::trimmed(c@)],
            None => Seq::empty(),
        }),
{
    let mut out = uxplay_path_candidates(platform, resources, build_dir);
    match configured {
        Some(c) => {
            let t = text::trim(c.as_str());
            adb::push_text(&mut out, t.as_str());
        },
        None => {},
    }
    assert(text::texts(out@) =~= shipped_uxplay(platform, resources@, build_dir@) + (
    match *configured {
        Some(c) => seq![text::trimmed(c@)],
        None => Seq::empty(),
    }));
    out
}

/// The state of the receiver for the overview: whether it is there, its version, and its path
/// or why it is missing. `found` is its path and whether that exists, or why it was not found.
pub fn uxplay_package_state(version_file: Option<String>, found: Result<(String, bool), String>) -> (r:
    (bool, Option<String>, String))
    ensures
        match found {
            Ok((path, true)) => r.0 && text::opt_text(r.1) == Some(
                match version_file {
                    Some(v) => text::trimmed(v@),
                    None => "未登记（需审计+记录版本）"@,
                },
            ) && r.2@ == path@,
            Ok((path, false)) => !r.0 && r.1 is None && r.2@ == "缺失："@ + path@,
            Err(why) => !r.0 && r.1 is None && r.2@ == why@,
        },
{
    match found {
        Ok((path, true)) => {
            let version = match version_file {
                Some(v) => text::trim(v.as_str()),
                None => text::own("未登记（需审计+记录版本）"),
            };
            (true, Some(version), path)
        },
        Ok((path, false)) => (false, None, text::cat2("缺失：", path.as_str())),
        Err(why) => (false, None, why),
    }
}

/// The path of the receiver, if it exists.
pub open spec fn usable(found: Result<(Seq<char>, bool), Seq<char>>) -> Result<
    Seq<char>,
    Seq<char>,
> {
    match found {
        Ok((path, true)) => Ok(path),
        Ok((path, false)) => Err(
            "未找到 UxPlay 可执行文件 "@ + path
                + "。发布前需按 AGENTS.md 放置经过审计和校验的构建物并记录版本/SHA-256/许可证。"@,
        ),
        Err(why) => Err(why),
    }
}

/// The path of the receiver, if it exists.
pub fn check_binary(found: Result<(String, bool), String>) -> (r: Result<String, String>)
    ensures
        usable(
            match found {
                Ok((path, exists)) => Ok((path@, exists)),
                Err(why) => Err(why@),
            },
        ) == (match r {
            Ok(p) => Ok::<Seq<char>, Seq<char>>(p@),
            Err(e) => Err(e@),
        }),
{
    match found {
        Ok((path, true)) => Ok(path),
        Ok((path, false)) => Err(
            text::cat3(
                "未找到 UxPlay 可执行文件 ",
                path.as_str(),
                "。发布前需按 AGENTS.md 放置经过审计和校验的构建物并记录版本/SHA-256/许可证。",
            ),
        ),
        Err(why) => Err(why),
    }
}

// ---------------------------------------------------------------------------
// The media runtime of the receiver
// ---------------------------------------------------------------------------

/// The directories in which the media runtime may stand, seen from one directory above the
/// receiver.
pub open spec fn runtime_dirs_from(platform: HostPlatform, dir: Seq<char>) -> Seq<Seq<char>> {
    match platform {
        HostPlatform::MacOs => seq![
            integrations::below(platform, dir, "../Resources/binaries/gstreamer"@),
            integrations::below(platform, dir, "../Resources/gstreamer"@),
            integrations::below(platform, dir, "binaries/gstreamer"@),
            integrations::below(platform, dir, "gstreamer"@),
            integrations::below(platform, dir, "../gstreamer"@),
        ],
        HostPlatform::Windows => seq![
            integrations::below(platform, dir, "../resources/binaries/gstreamer"@),
            integrations::below(platform, dir, "../Resources/binaries/gstreamer"@),
            integrations::below(platform, dir, "binaries/gstreamer"@),
            integrations::below(platform, dir, "gstreamer"@),
        ],
        HostPlatform::Other => Seq::empty(),
    }
}

/// The directories in which the media runtime may stand; `parents` are the directories above
/// the receiver, nearest first. On Windows only the nearest one counts.
pub open spec fn runtime_dirs(platform: HostPlatform, parents: Seq<Seq<char>>) -> Seq<Seq<char>>
    decreases parents.len(),
{
    if parents.len() == 0 {
        Seq::empty()
    } else if platform is MacOs {
        runtime_dirs(platform, parents.drop_last()) + runtime_dirs_from(platform, parents.last())
    } else {
        runtime_dirs_from(platform, parents[0])
    }
}

fn push_runtime_dirs(out: &mut Vec<String>, platform: HostPlatform, dir: &str)
    ensures
        text::texts(final(out)@) == text::texts(old(out)@) + runtime_dirs_from(platform, dir@),
{
    let ghost start = text::texts(out@);
    match platform {
        HostPlatform::MacOs => {
            let a = path_below(platform, dir, "../Resources/binaries/gstreamer");
            let b = path_below(platform, dir, "../Resources/gstreamer");
            let c = path_below(platform, dir, "binaries/gstreamer");
            let d = path_below(platform, dir, "gstreamer");
            let e = path_below(platform, dir, "../gstreamer");
            adb::push_text(out, a.as_str());
            adb::push_text(out, b.as_str());
            adb::push_text(out, c.as_str());
            adb::push_text(out, d.as_str());
            adb::push_text(out, e.as_str());
        },
        HostPlatform::Windows => {
            let a = path_below(platform, dir, "../resources/binaries/gstreamer");
            let b = path_below(platform, dir, "../Resources/binaries/gstreamer");
            let c = path_below(platform, dir, "binaries/gstreamer");
            let d = path_below(platform, dir, "gstreamer");
            adb::push_text(out, a.as_str());
            adb::push_text(out, b.as_str());
            adb::push_text(out, c.as_str());
            adb::push_text(out, d.as_str());
        },
        HostPlatform::Other => {},
    }
    assert(text::texts(out@) =~= start + runtime_dirs_from(platform, dir@));
}

/// The directories in which the media runtime may stand.
pub fn runtime_candidates(platform: HostPlatform, parents: &Vec<String>) -> (r: Vec<String>)
    ensures
        text::texts(r@) == runtime_dirs(platform, text::texts(parents@)),
{
    let mut out: Vec<String> = Vec::new();
    assert(text::texts(out@) =~= Seq::<Seq<char>>::empty());
    let ghost all = text::texts(parents@);
    if parents.len() == 0 {
        return out;
    }
    match platform {
        HostPlatform::MacOs => {},
        _ => {
            assert(all[0] == parents@[0]@);
            push_runtime_dirs(&mut out, platform, parents[0].as_str());
            assert(text::texts(out@) =~= runtime_dirs(platform, all));
            return out;
        },
    }
    let mut i: usize = 0;
    assert(all.take(0) =~= Seq::<Seq<char>>::empty());
    while i < parents.len()
        invariant
            i <= parents@.len(),
            platform is MacOs,
            all == text::texts(parents@),
            text::texts(out@) == runtime_dirs(platform, all.take(i as int)),
        decreases parents@.len() - i,
    {
        assert(all.take(i + 1).drop_last() =~= all.take(i as int));
        assert(all.take(i + 1).last() == parents@[i as int]@);
        push_runtime_dirs(&mut out, platform, parents[i].as_str());
        i = i + 1;
    }
    assert(all.take(i as int) =~= all);
    out
}

/// What is there in a directory that may hold the media runtime.
#[derive(Debug, Clone, Copy)]
pub struct RuntimeProbe {
    /// The directory of the libraries: `lib` on macOS, `bin` on Windows.
    pub libraries: bool,
    pub plugins: bool,
    pub scanner: bool,
}

/// The first directory that holds a whole media runtime.
pub fn choose_runtime(probes: &Vec<RuntimeProbe>) -> (r: Option<usize>)
    ensures
        ({
            let i = seqs::first_from(
                probes@,
                |p: RuntimeProbe| p.libraries && p.plugins && p.scanner,
                0,
            );
            if 0 <= i < probes@.len() {
                r == Some(i as usize)
            } else {
                r is None
            }
        }),
{
    let ghost f = |p: RuntimeProbe| p.libraries && p.plugins && p.scanner;
    let mut i: usize = 0;
    while i < probes.len()
        invariant
            i <= probes@.len(),
            f == (|p: RuntimeProbe| p.libraries && p.plugins && p.scanner),
            forall|j: int| 0 <= j < i ==> !f(#[trigger] probes@[j]),
        decreases probes@.len() - i,
    {
        let p = probes[i];
        if p.libraries && p.plugins && p.scanner {
            proof {
                seqs::lemma_first_from_is(probes@, f, 0, i as int);
            }
            return Some(i);
        }
        i = i + 1;
    }
    proof {
        seqs::lemma_first_from_is(probes@, f, 0, i as int);
    }
    None
}

/// The scanner of the media runtime: the places where it may stand.
pub fn scanner_candidates(platform: HostPlatform, runtime: &str) -> (r: Vec<String>)
    ensures
        text::texts(r@) == (if platform is Windows {
            seq![
                integrations::below(
                    platform,
                    runtime@,
                    "libexec/gstreamer-1.0/gst-plugin-scanner.exe"@,
                ),
                integrations::below(platform, runtime@, "libexec/gstreamer-1.0/gst-plugin-scanner"@),
            ]
        } else {
            seq![integrations::below(platform, runtime@, "libexec/gstreamer-1.0/gst-plugin-scanner"@)]
        }),
{
    let mut out: Vec<String> = Vec::new();
    let a = path_below(platform, runtime, "libexec/gstreamer-1.0/gst-plugin-scanner.exe");
    let b = path_below(platform, runtime, "libexec/gstreamer-1.0/gst-plugin-scanner");
    match platform {
        HostPlatform::Windows => {
            out.push(a);
            out.push(b);
            assert(text::texts(out@) =~= seq![a@, b@]);
        },
        _ => {
            out.push(b);
            assert(text::texts(out@) =~= seq![b@]);
        },
    }
    out
}

/// The environment of the receiver, apart from the search path, that makes it use the media
/// runtime that ships with the application.
pub fn runtime_environment(platform: HostPlatform, runtime: &str, scanner: &str) -> (r: Vec<
    (String, String),
>)
    ensures
        Seq::new(r@.len(), |i: int| (r@[i].0@, r@[i].1@)) == (if platform is Other {
            Seq::empty()
        } else {
            seq![
                ("GST_PLUGIN_PATH"@, integrations::below(platform, runtime@, "plugins"@)),
                ("GST_PLUGIN_SYSTEM_PATH_1_0"@, integrations::below(platform, runtime@, "plugins"@)),
                ("GST_PLUGIN_SCANNER"@, scanner@),
            ] + (if platform is MacOs {
                seq![("DYLD_LIBRARY_PATH"@, integrations::below(platform, runtime@, "lib"@))]
            } else {
                Seq::empty()
            })
        }),
{
    let mut out: Vec<(String, String)> = Vec::new();
    match platform {
        HostPlatform::Other => {
            return out;
        },
        _ => {},
    }
    out.push((text::own("GST_PLUGIN_PATH"), path_below(platform, runtime, "plugins")));
    out.push((text::own("GST_PLUGIN_SYSTEM_PATH_1_0"), path_below(platform, runtime, "plugins")));
    out.push((text::own("GST_PLUGIN_SCANNER"), text::own(scanner)));
    match platform {
        HostPlatform::MacOs => {
            out.push((text::own("DYLD_LIBRARY_PATH"), path_below(platform, runtime, "lib")));
        },
        _ => {},
    }
    out
}

// ---------------------------------------------------------------------------
// What the processes are called with
// ---------------------------------------------------------------------------

/// How the video is coded.
#[derive(Debug, Clone, Copy, PartialEq, Eq, Structural)]
pub enum Codec {
    H264,
    H265,
}

/// The description of a stream that comes in on a local port.
pub open spec fn sdp_text(codec: Codec, port: u16) -> Seq<char> {
    "v=0\r\no=- 0 0 IN IP4 127.0.0.1\r\ns="@ + crate::APP_NAME@
        + "\r\nc=IN IP4 127.0.0.1\r\nt=0 0\r\nm=video "@ + text::dec(port as nat) + (match codec {
        Codec::H264 => " RTP/AVP 96\r\na=rtpmap:96 H264/90000\r\na=fmtp:96 packetization-mode=1\r\n"@,
        Codec::H265 => " RTP/AVP 96\r\na=rtpmap:96 H265/90000\r\n"@,
    })
}

/// The description of a stream that comes in on a local port.
pub fn stream_description(codec: Codec, port: u16) -> (r: String)
    ensures
        r@ == sdp_text(codec, port),
{
    let tail = match codec {
        Codec::H264 => " RTP/AVP 96\r\na=rtpmap:96 H264/90000\r\na=fmtp:96 packetization-mode=1\r\n",
        Codec::H265 => " RTP/AVP 96\r\na=rtpmap:96 H265/90000\r\n",
    };
    text::cat5(
        "v=0\r\no=- 0 0 IN IP4 127.0.0.1\r\ns=",
        crate::APP_NAME,
        "\r\nc=IN IP4 127.0.0.1\r\nt=0 0\r\nm=video ",
        text::decimal(port as u64).as_str(),
        tail,
    )
}

/// The name of the file that holds the description.
pub fn description_file(codec: Codec, port: u16) -> (r: String)
    ensures
        r@ == (match codec {
            Codec::H264 => "phonebridge-uxplay-h264-"@,
            Codec::H265 => "phonebridge-uxplay-h265-"@,
        }) + text::dec(port as nat) + ".sdp"@,
{
    let head = match codec {
        Codec::H264 => "phonebridge-uxplay-h264-",
        Codec::H265 => "phonebridge-uxplay-h265-",
    };
    text::cat3(head, text::decimal(port as u64).as_str(), ".sdp")
}

/// The filter that fits a picture into the frame, with black around it.
pub open spec fn scale_filter() -> Seq<char> {
    "scale=480:1040:force_original_aspect_ratio=decrease,pad=480:1040:(ow-iw)/2:(oh-ih)/2:black"@
}

/// The arguments of a decoder that reads the stream described in a file.
pub open spec fn decoder_words(sdp_path: Seq<char>) -> Seq<Seq<char>> {
    seq![
        "-hide_banner"@,
        "-loglevel"@,
        "error"@,
        "-protocol_whitelist"@,
        "file,udp,rtp"@,
        "-flags"@,
        "low_delay"@,
        "-max_delay"@,
        "0"@,
        "-f"@,
        "sdp"@,
        "-listen_timeout"@,
        "-1"@,
        "-i"@,
        sdp_path,
        "-an"@,
        "-sn"@,
        "-dn"@,
        "-f"@,
        "rawvideo"@,
        "-pix_fmt"@,
        "rgba"@,
        "-vf"@,
        scale_filter(),
        "pipe:1"@,
    ]
}

/// The arguments of a decoder that reads the stream described in a file. It waits for the
/// stream without limit, since the user starts it on the phone.
pub fn decoder_arguments(sdp_path: &str) -> (r: Vec<String>)
    ensures
        text::texts(r@) == decoder_words(sdp_path@),
{
    let filter = text::own(
        "scale=480:1040:force_original_aspect_ratio=decrease,pad=480:1040:(ow-iw)/2:(oh-ih)/2:black",
    );
    text::own_all(
        &[
            "-hide_banner",
            "-loglevel",
            "error",
            "-protocol_whitelist",
            "file,udp,rtp",
            "-flags",
            "low_delay",
            "-max_delay",
            "0",
            "-f",
            "sdp",
            "-listen_timeout",
            "-1",
            "-i",
            sdp_path,
            "-an",
            "-sn",
            "-dn",
            "-f",
            "rawvideo",
            "-pix_fmt",
            "rgba",
            "-vf",
            filter.as_str(),
            "pipe:1",
        ],
    )
}

/// The pipeline that copies the stream to both local ports.
pub open spec fn rtp_pipeline(h264_port: u16, h265_port: u16) -> Seq<char> {
    "config-interval=1 ! tee name=phonebridge_rtp phonebridge_rtp. ! queue ! udpsink host=127.0.0.1 port="@
        + text::dec(h264_port as nat)
        + " phonebridge_rtp. ! queue ! udpsink host=127.0.0.1 port="@ + text::dec(
        h265_port as nat,
    )
}

/// The arguments of a receiver that sends the stream to two local ports.
pub open spec fn rtp_words(
    service: Seq<char>,
    port: u16,
    h264_port: u16,
    h265_port: u16,
) -> Seq<Seq<char>> {
    seq![
        "-n"@,
        service,
        "-nh"@,
        "-p"@,
        text::dec(port as nat),
        "-h265"@,
        "-s"@,
        "1920x1080@30"@,
        "-fps"@,
        "30"@,
        "-vs"@,
        "fakesink"@,
        "-as"@,
        "0"@,
        "-vsync"@,
        "no"@,
        "-nohold"@,
        "-vrtp"@,
        rtp_pipeline(h264_port, h265_port),
    ]
}

/// The arguments of a receiver that sends the stream to two local ports. It opens no window,
/// and a new phone takes the place of an old one.
pub fn rtp_receiver_arguments(service: &str, port: u16, h264_port: u16, h265_port: u16) -> (r: Vec<
    String,
>)
    ensures
        text::texts(r@) == rtp_words(service@, port, h264_port, h265_port),
{
    let p = text::decimal(port as u64);
    let pipeline = text::cat4(
        "config-interval=1 ! tee name=phonebridge_rtp phonebridge_rtp. ! queue ! udpsink host=127.0.0.1 port=",
        text::decimal(h264_port as u64).as_str(),
        " phonebridge_rtp. ! queue ! udpsink host=127.0.0.1 port=",
        text::decimal(h265_port as u64).as_str(),
    );
    text::own_all(
        &[
            "-n",
            service,
            "-nh",
            "-p",
            p.as_str(),
            "-h265",
            "-s",
            "1920x1080@30",
            "-fps",
            "30",
            "-vs",
            "fakesink",
            "-as",
            "0",
            "-vsync",
            "no",
            "-nohold",
            "-vrtp",
            pipeline.as_str(),
        ],
    )
}

/// The conversion on macOS: to the pixel format first, then to the size. A converter cannot
/// scale, so the size stands behind the scaler.
pub open spec fn converter_text(width: u32, height: u32) -> Seq<char> {
    "videoconvert ! video/x-raw,format=RGBA ! videoscale ! video/x-raw,width="@ + text::dec(
        width as nat,
    ) + ",height="@ + text::dec(height as nat)
}

/// The conversion on macOS: to the pixel format first, then to the size.
pub fn macos_video_converter(width: u32, height: u32) -> (r: String)
    ensures
        r@ == converter_text(width, height),
{
    text::cat4(
        "videoconvert ! video/x-raw,format=RGBA ! videoscale ! video/x-raw,width=",
        text::decimal(width as u64).as_str(),
        ",height=",
        text::decimal(height as u64).as_str(),
    )
}

/// The arguments of a receiver that writes frames into a pipe.
pub open spec fn pipe_words(service: Seq<char>, port: u16) -> Seq<Seq<char>> {
    seq![
        "-n"@,
        service,
        "-nh"@,
        "-p"@,
        text::dec(port as nat),
        "-h265"@,
        "-s"@,
        "1920x1080@30"@,
        "-fps"@,
        "30"@,
        "-avdec"@,
        "-vc"@,
        converter_text(IOS_OUTPUT_WIDTH, IOS_OUTPUT_HEIGHT),
        "-vs"@,
        "fdsink fd=3 sync=false"@,
        "-as"@,
        "0"@,
        "-vsync"@,
        "no"@,
        "-nc"@,
        "no"@,
        "-nohold"@,
    ]
}

/// The arguments of a receiver that decodes in software and writes frames into a pipe.
pub fn pipe_receiver_arguments(service: &str, port: u16) -> (r: Vec<String>)
    ensures
        text::texts(r@) == pipe_words(service@, port),
{
    let p = text::decimal(port as u64);
    let converter = macos_video_converter(IOS_OUTPUT_WIDTH, IOS_OUTPUT_HEIGHT);
    text::own_all(
        &[
            "-n",
            service,
            "-nh",
            "-p",
            p.as_str(),
            "-h265",
            "-s",
            "1920x1080@30",
            "-fps",
            "30",
            "-avdec",
            "-vc",
            converter.as_str(),
            "-vs",
            "fdsink fd=3 sync=false",
            "-as",
            "0",
            "-vsync",
            "no",
            "-nc",
            "no",
            "-nohold",
        ],
    )
}

// ---------------------------------------------------------------------------
// Log lines
// ---------------------------------------------------------------------------

/// The picture size on a log line: its first two numbers, if both are between 320 and 8000.
pub open spec fn resolution_in(line: Seq<char>) -> Option<(nat, nat)> {
    let groups = seqs::collect(
        text::split_by(line, |c: char| !text::is_digit(c)),
        |s: Seq<char>|
            if s.len() == 0 {
                None
            } else {
                Some(s)
            },
    );
    if groups.len() < 2 {
        None
    } else {
        match (
            text::parsed(groups[0], u32::MAX as nat),
            text::parsed(groups[1], u32::MAX as nat),
        ) {
            (Some(w), Some(h)) => if 320 <= w <= 8000 && 320 <= h <= 8000 {
                Some((w, h))
            } else {
                None
            },
            _ => None,
        }
    }
}

fn digit_groups(line: &str) -> (r: Vec<String>)
    ensures
        text::texts(r@) == seqs::collect(
            text::split_by(line@, |c: char| !text::is_digit(c)),
            |s: Seq<char>|
                if s.len() == 0 {
                    None
                } else {
                    Some(s)
                },
        ),
{
    let parts = text::split_at_non_digits(line);
    let ghost all = text::split_by(line@, |c: char| !text::is_digit(c));
    let ghost f = |s: Seq<char>|
        if s.len() == 0 {
            None
        } else {
            Some(s)
        };
    let mut out: Vec<String> = Vec::new();
    let mut i: usize = 0;
    proof {
        seqs::lemma_collect_ends(all, f);
        assert(text::texts(out@) =~= Seq::<Seq<char>>::empty());
    }
    while i < parts.len()
        invariant
            i <= parts@.len(),
            text::texts(parts@) == all,
            f == (|s: Seq<char>|
                if s.len() == 0 {
                    None
                } else {
                    Some(s)
                }),
            text::texts(out@) == seqs::collect(all.take(i as int), f),
        decreases parts@.len() - i,
    {
        proof {
            seqs::lemma_collect_step(all, f, i as int);
            assert(all[i as int] == parts@[i as int]@);
        }
        let ghost before = out@;
        if !parts[i].as_str().is_empty() {
            let g = text::own(parts[i].as_str());
            out.push(g);
            assert(text::texts(out@) =~= text::texts(before).push(g@));
        }
        i = i + 1;
    }
    proof {
        seqs::lemma_collect_ends(all, f);
    }
    out
}

/// Reads the picture size on a log line, such as `1920x1080` or `800 x 600`.
pub fn parse_resolution(line: &str) -> (r: Option<(u32, u32)>)
    ensures
        adb::size_view(r) == resolution_in(line@),
{
    let groups = digit_groups(line);
    assert(text::texts(groups@).len() == groups@.len());
    if groups.len() < 2 {
        return None;
    }
    assert(text::texts(groups@)[0] == groups@[0]@);
    assert(text::texts(groups@)[1] == groups@[1]@);
    let w = match text::parse_number(groups[0].as_str(), u32::MAX as u64) {
        Some(w) => w,
        None => {
            return None;
        },
    };
    let h = match text::parse_number(groups[1].as_str(), u32::MAX as u64) {
        Some(h) => h,
        None => {
            return None;
        },
    };
    if w >= 320 && h >= 320 && w <= 8000 && h <= 8000 {
        Some((w as u32, h as u32))
    } else {
        None
    }
}

/// Whether a log line shows that a phone is connected.
pub open spec fn tells_connection(line: Seq<char>) -> bool {
    let l = text::lowered(line);
    ||| text::occurs(l, "raop active connection"@)
    ||| text::occurs(l, "new request"@) && text::occurs(l, "type raop"@)
    ||| text::occurs(l, "raop_handler_feedback"@)
    ||| text::occurs(l, "post /feedback"@)
    ||| text::occurs(l, "received video streaming performance info packet"@)
    ||| text::occurs(l, "begin streaming to gstreamer video pipeline"@)
}

/// Whether a log line shows that a phone is connected. Lines about starting or waiting do not.
pub fn is_uxplay_connected_log(line: &str) -> (r: bool)
    ensures
        r == tells_connection(line@),
{
    let lower = text::ascii_lower(line);
    let l = lower.as_str();
    text::contains(l, "raop active connection") || (text::contains(l, "new request")
        && text::contains(l, "type raop")) || text::contains(l, "raop_handler_feedback")
        || text::contains(l, "post /feedback") || text::contains(
        l,
        "received video streaming performance info packet",
    ) || text::contains(l, "begin streaming to gstreamer video pipeline")
}

/// Six pairs of hexadecimal digits with colons between them.
pub open spec fn is_mac(s: Seq<char>) -> bool {
    let parts = text::split_by(s, |c: char| c == ':');
    &&& parts.len() == 6
    &&& forall|i: int|
        0 <= i < 6 ==> (#[trigger] parts[i]).len() == 2 && text::is_hex(parts[i][0])
            && text::is_hex(parts[i][1])
}

/// One number of an IPv4 address.
pub open spec fn is_octet(s: Seq<char>) -> bool {
    0 < s.len() <= 3 && text::all_digits(s) && text::digits_value(s) <= 255
}

/// Four numbers up to 255 with dots between them.
pub open spec fn is_ipv4(s: Seq<char>) -> bool {
    let parts = text::split_by(s, |c: char| c == '.');
    &&& parts.len() == 4
    &&& forall|i: int| 0 <= i < 4 ==> is_octet(#[trigger] parts[i])
}

/// An IPv4 address with a colon and the digits of a port behind it.
pub open spec fn is_ipv4_with_port(s: Seq<char>) -> bool {
    let parts = text::split_by(s, |c: char| c == ':');
    &&& parts.len() == 2
    &&& is_ipv4(parts[0])
    &&& parts[1].len() > 0
    &&& text::all_digits(parts[1])
}

/// What tells a device apart in a network: a hardware address or an IPv4 address, with or
/// without a port.
pub open spec fn is_address(s: Seq<char>) -> bool {
    is_mac(s) || is_ipv4(s) || is_ipv4_with_port(s)
}

/// Whether a text is a hardware address.
pub fn looks_like_mac(value: &str) -> (r: bool)
    ensures
        r == is_mac(value@),
{
    let parts = text::split_char(value, ':');
    let ghost all = text::split_by(value@, |c: char| c == ':');
    assert(all.len() == parts@.len());
    if parts.len() != 6 {
        return false;
    }
    let mut i: usize = 0;
    while i < 6
        invariant
            i <= 6,
            parts@.len() == 6,
            text::texts(parts@) == all,
            all == text::split_by(value@, |c: char| c == ':'),
            all.len() == 6,
            forall|j: int|
                0 <= j < i ==> (#[trigger] all[j]).len() == 2 && text::is_hex(all[j][0])
                    && text::is_hex(all[j][1]),
        decreases 6 - i,
    {
        assert(all[i as int] == parts@[i as int]@);
        let v = text::chars_of(parts[i].as_str());
        if v.len() != 2 || !text::hex_digit(v[0]) || !text::hex_digit(v[1]) {
            return false;
        }
        i = i + 1;
    }
    true
}

fn all_digit_chars(v: &Vec<char>) -> (r: bool)
    ensures
        r == text::all_digits(v@),
{
    let mut i: usize = 0;
    while i < v.len()
        invariant
            i <= v@.len(),
            forall|j: int| 0 <= j < i ==> text::is_digit(#[trigger] v@[j]),
        decreases v@.len() - i,
    {
        if !text::digit(v[i]) {
            assert(!text::is_digit(v@[i as int]));
            return false;
        }
        i = i + 1;
    }
    true
}

fn octet(s: &str) -> (r: bool)
    ensures
        r == is_octet(s@),
{
    let v = text::chars_of(s);
    if v.len() == 0 || v.len() > 3 || !all_digit_chars(&v) {
        return false;
    }
    assert(text::is_digit(v@[0]));
    text::parse_number(s, 255).is_some()
}

/// Whether a text is an IPv4 address.
pub fn looks_like_ipv4(value: &str) -> (r: bool)
    ensures
        r == is_ipv4(value@),
{
    let parts = text::split_char(value, '.');
    let ghost all = text::split_by(value@, |c: char| c == '.');
    assert(all.len() == parts@.len());
    if parts.len() != 4 {
        return false;
    }
    let mut i: usize = 0;
    while i < 4
        invariant
            i <= 4,
            parts@.len() == 4,
            text::texts(parts@) == all,
            all == text::split_by(value@, |c: char| c == '.'),
            all.len() == 4,
            forall|j: int| 0 <= j < i ==> is_octet(#[trigger] all[j]),
        decreases 4 - i,
    {
        assert(all[i as int] == parts@[i as int]@);
        if !octet(parts[i].as_str()) {
            return false;
        }
        i = i + 1;
    }
    true
}

/// Whether a text is an IPv4 address with a port.
pub fn looks_like_ipv4_with_port(value: &str) -> (r: bool)
    ensures
        r == is_ipv4_with_port(value@),
{
    let parts = text::split_char(value, ':');
    let ghost all = text::split_by(value@, |c: char| c == ':');
    assert(all.len() == parts@.len());
    if parts.len() != 2 {
        return false;
    }
    assert(all[0] == parts@[0]@);
    assert(all[1] == parts@[1]@);
    let port = text::chars_of(parts[1].as_str());
    looks_like_ipv4(parts[0].as_str()) && port.len() > 0 && all_digit_chars(&port)
}

/// Where a word begins behind its leading punctuation; its length if there is nothing else.
pub open spec fn core_start(token: Seq<char>) -> int {
    text::find_from(token, |c: char| !text::is_punctuation(c), 0)
}

/// Where the characters before `n` end without their trailing punctuation, not before `low`.
pub open spec fn core_end(token: Seq<char>, low: int, n: int) -> int
    decreases n - low,
{
    if n <= low {
        low
    } else if text::is_punctuation(token[n - 1]) {
        core_end(token, low, n - 1)
    } else {
        n
    }
}

/// A word without the punctuation around it.
pub open spec fn core_of(token: Seq<char>) -> Seq<char> {
    token.subrange(
        core_start(token),
        core_end(token, core_start(token), token.len() as int),
    )
}

/// A word with an address in it replaced; the punctuation around it stays.
pub open spec fn redacted(token: Seq<char>) -> Seq<char> {
    let a = core_start(token);
    let b = core_end(token, a, token.len() as int);
    if is_address(core_of(token)) {
        token.take(a) + "[地址已脱敏]"@ + token.skip(b)
    } else {
        token
    }
}

proof fn lemma_core_bounds(token: Seq<char>, low: int, n: int)
    requires
        0 <= low <= n <= token.len(),
    ensures
        low <= core_end(token, low, n) <= n,
    decreases n,
{
    if n > low && text::is_punctuation(token[n - 1]) {
        lemma_core_bounds(token, low, n - 1);
    }
}

/// Replaces an address in a word.
pub fn redact_log_token(token: &str) -> (r: String)
    ensures
        r@ == redacted(token@),
{
    let v = text::chars_of(token);
    let ghost f = |c: char| !text::is_punctuation(c);
    let n: usize = v.len();
    let mut a: usize = 0;
    while a < n && text::punctuation(v[a])
        invariant
            n == v@.len(),
            a <= n,
            f == (|c: char| !text::is_punctuation(c)),
            forall|j: int| 0 <= j < a ==> !f(#[trigger] v@[j]),
        decreases n - a,
    {
        a = a + 1;
    }
    proof {
        text::lemma_find_from_is(v@, f, 0, a as int);
    }
    let mut b: usize = n;
    while b > a && text::punctuation(v[b - 1])
        invariant
            n == v@.len(),
            a <= b <= n,
            core_end(v@, a as int, b as int) == core_end(v@, a as int, n as int),
        decreases b,
    {
        b = b - 1;
    }
    let core = text::text_of(vstd::slice::slice_subrange(&v, a, b));
    assert(core@ =~= core_of(token@));
    if looks_like_mac(core.as_str()) || looks_like_ipv4(core.as_str())
        || looks_like_ipv4_with_port(core.as_str()) {
        let head = text::text_of(vstd::slice::slice_subrange(&v, 0, a));
        let tail = text::text_of(vstd::slice::slice_subrange(&v, b, n));
        assert(head@ =~= token@.take(a as int));
        assert(tail@ =~= token@.skip(b as int));
        text::cat3(head.as_str(), "[地址已脱敏]", tail.as_str())
    } else {
        text::own(token)
    }
}

/// The words of a line, each one without an address, with one space between them.
pub open spec fn redacted_line(line: Seq<char>) -> Seq<char> {
    let w = text::words_of(line);
    text::joined(Seq::new(w.len(), |i: int| redacted(w[i])), " "@)
}

/// A log line as it is kept: without addresses, and cut to 512 bytes.
pub open spec fn sanitized(line: Seq<char>) -> Seq<char> {
    let s = redacted_line(line);
    if text::byte_length(s) > 512 {
        text::first_bytes(s, 512) + "…(截断)"@
    } else {
        s
    }
}

/// Takes the addresses out of a log line and cuts it to 512 bytes, at a character boundary.
pub fn sanitize_log_line(line: &str) -> (r: String)
    ensures
        r@ == sanitized(line@),
{
    let w = text::words(line);
    let ghost words = text::words_of(line@);
    let ghost all = Seq::new(words.len(), |i: int| redacted(words[i]));
    let mut out: Vec<String> = Vec::new();
    let mut i: usize = 0;
    while i < w.len()
        invariant
            i <= w@.len(),
            text::texts(w@) == words,
            all == Seq::new(words.len(), |i: int| redacted(words[i])),
            text::texts(out@) =~= all.take(i as int),
        decreases w@.len() - i,
    {
        let t = redact_log_token(w[i].as_str());
        assert(t@ == all[i as int]);
        let ghost before = out@;
        out.push(t);
        assert(text::texts(out@) =~= text::texts(before).push(t@));
        i = i + 1;
    }
    assert(all.take(i as int) =~= all);
    let s = text::join(&out, " ");
    if text::byte_len(s.as_str()) > 512 {
        text::cat2(text::take_first_bytes(s.as_str(), 512).as_str(), "…(截断)")
    } else {
        s
    }
}

/// A kept log line takes at most 512 bytes and the mark that it was cut.
pub proof fn kept_lines_are_bounded(line: Seq<char>)
    ensures
        sanitized(line) == redacted_line(line) && text::byte_length(sanitized(line)) <= 512
            || exists|head: Seq<char>|
            text::byte_length(head) <= 512 && sanitized(line) == #[trigger] (head + "…(截断)"@),
{
    text::lemma_cuts_within(redacted_line(line), 512);
    let head = text::first_bytes(redacted_line(line), 512);
    if text::byte_length(redacted_line(line)) > 512 {
        assert(sanitized(line) == head + "…(截断)"@);
    }
}

/// After redaction no word of a log line has an address between its punctuation.
pub proof fn redaction_leaves_no_address(token: Seq<char>)
    ensures
        !is_address(core_of(redacted(token))),
{
    if is_address(core_of(token)) {
        let f = |c: char| !text::is_punctuation(c);
        let mark = "[地址已脱敏]"@;
        reveal_strlit("[地址已脱敏]");
        let a = core_start(token);
        text::lemma_find_from(token, f, 0);
        lemma_core_bounds(token, a, token.len() as int);
        let b = core_end(token, a, token.len() as int);
        let r = redacted(token);
        assert(r =~= token.take(a) + mark + token.skip(b));
        assert forall|j: int| 0 <= j < a + 1 implies !f(#[trigger] r[j]) by {
            if j < a {
                assert(!f(token[j]));
                assert(r[j] == token[j]);
            }
        }
        assert(r[a + 1] == mark[1]);
        text::lemma_find_from_is(r, f, 0, a + 1);
        lemma_trailing_punctuation(token, a, token.len() as int);
        lemma_core_end_is(r, a + 1, r.len() as int, a + 6);
        let core = core_of(r);
        assert(core.len() == 5);
        assert(core =~= mark.subrange(1, 6));
        lemma_unsplit(core, ':');
        lemma_unsplit(core, '.');
    }
}

proof fn lemma_address_end(s: Seq<char>)
    requires
        is_address(s),
    ensures
        s.len() > 0,
        text::is_hex(s.last()),
{
    let colon = |c: char| c == ':';
    let dot = |c: char| c == '.';
    text::lemma_split_end(s, colon, 0);
    text::lemma_split_end(s, dot, 0);
    if is_mac(s) {
        let p = text::split_by(s, colon)[5];
        assert(text::is_hex(p[1]));
    } else if is_ipv4(s) {
        let p = text::split_by(s, dot)[3];
        assert(is_octet(p));
        assert(text::is_digit(p[p.len() - 1]));
    } else {
        let p = text::split_by(s, colon)[1];
        assert(text::is_digit(p[p.len() - 1]));
    }
}

proof fn lemma_redacted_word(token: Seq<char>)
    requires
        token.len() > 0,
        forall|j: int| 0 <= j < token.len() ==> !text::is_space(#[trigger] token[j]),
    ensures
        redacted(token).len() > 0,
        forall|j: int|
            0 <= j < redacted(token).len() ==> !text::is_space(#[trigger] redacted(token)[j]),
{
    reveal_strlit("[地址已脱敏]");
    let f = |c: char| !text::is_punctuation(c);
    let a = core_start(token);
    text::lemma_find_from(token, f, 0);
    lemma_core_bounds(token, a, token.len() as int);
}

proof fn lemma_cut_word(head: Seq<char>)
    ensures
        !is_address(core_of(head + "…(截断)"@)),
{
    reveal_strlit("…(截断)");
    let f = |c: char| !text::is_punctuation(c);
    let w = head + "…(截断)"@;
    let n = w.len() as int;
    let a = core_start(w);
    text::lemma_find_from(w, f, 0);
    assert(w[n - 2] == '断');
    assert(f(w[n - 2]));
    lemma_core_end_is(w, a, n, n - 1);
    let core = core_of(w);
    assert(core.last() == '断');
    if is_address(core) {
        lemma_address_end(core);
    }
}

/// No word of a kept log line has an address between its punctuation, with or without a port;
/// nor does the word at which a long line was cut.
pub proof fn kept_words_hold_no_address(line: Seq<char>, i: int)
    requires
        0 <= i < text::words_of(sanitized(line)).len(),
    ensures
        !is_address(core_of(text::words_of(sanitized(line))[i])),
{
    let s = redacted_line(line);
    let kept = sanitized(line);
    text::lemma_words_are_runs(kept, i);
    let (b, e) = choose|b: int, e: int|
        #[trigger] text::is_run(kept, b, e) && text::words_of(kept)[i] == kept.subrange(b, e);
    if text::byte_length(s) > 512 {
        reveal_strlit("…(截断)");
        text::lemma_cuts_within(s, 512);
        let k = choose|k: int|
            0 <= k <= s.len() && text::first_bytes(s, 512) == #[trigger] s.take(k);
        let mark = "…(截断)"@;
        assert(kept == s.take(k) + mark);
        assert(mark.len() == 5);
        assert forall|j: int| k <= j < kept.len() implies !text::is_space(#[trigger] kept[j]) by {
            assert(kept[j] == mark[j - k]);
        }
        assert(e != k);
        if e < k {
            assert forall|j: int| b <= j < e implies !text::is_space(#[trigger] s[j]) by {
                assert(kept[j] == s[j]);
            }
            if b > 0 {
                assert(kept[b - 1] == s[b - 1]);
            }
            assert(kept[e] == s[e]);
            assert(text::is_run(s, b, e));
            lemma_run_is_redacted(line, b, e);
            assert(kept.subrange(b, e) =~= s.subrange(b, e));
        } else {
            assert(e == kept.len());
            assert(b <= k);
            assert(kept.subrange(b, e) =~= s.subrange(b, k) + mark);
            lemma_cut_word(s.subrange(b, k));
        }
    } else {
        lemma_run_is_redacted(line, b, e);
    }
}

proof fn lemma_run_is_redacted(line: Seq<char>, b: int, e: int)
    requires
        text::is_run(redacted_line(line), b, e),
    ensures
        !is_address(core_of(redacted_line(line).subrange(b, e))),
{
    let words = text::words_of(line);
    let parts = Seq::new(words.len(), |i: int| redacted(words[i]));
    assert forall|k: int| 0 <= k < parts.len() implies (#[trigger] parts[k]).len() > 0 && (forall|
        j: int,
    |
        0 <= j < parts[k].len() ==> !text::is_space(#[trigger] parts[k][j])) by {
        text::lemma_words_are_runs(line, k);
        lemma_redacted_word(words[k]);
    }
    text::lemma_joined_runs(parts, b, e);
    let w = redacted_line(line).subrange(b, e);
    let k = choose|k: int| 0 <= k < parts.len() && parts[k] == w;
    redaction_leaves_no_address(words[k]);
}

proof fn lemma_trailing_punctuation(token: Seq<char>, low: int, n: int)
    requires
        0 <= low <= n <= token.len(),
    ensures
        forall|j: int|
            core_end(token, low, n) <= j < n ==> text::is_punctuation(#[trigger] token[j]),
    decreases n,
{
    if n > low && text::is_punctuation(token[n - 1]) {
        lemma_trailing_punctuation(token, low, n - 1);
    }
}

proof fn lemma_core_end_is(token: Seq<char>, low: int, n: int, at: int)
    requires
        0 <= low < at <= n <= token.len(),
        !text::is_punctuation(token[at - 1]),
        forall|j: int| at <= j < n ==> text::is_punctuation(#[trigger] token[j]),
    ensures
        core_end(token, low, n) == at,
    decreases n,
{
    if n > at {
        assert(text::is_punctuation(token[n - 1]));
        lemma_core_end_is(token, low, n - 1, at);
    }
}

proof fn lemma_unsplit(s: Seq<char>, c: char)
    requires
        !s.contains(c),
    ensures
        text::split_by(s, |x: char| x == c).len() == 1,
{
    let f = |x: char| x == c;
    assert forall|j: int| 0 <= j < s.len() implies !f(#[trigger] s[j]) by {
        assert(s.contains(s[j]));
    }
    text::lemma_find_from_is(s, f, 0, s.len() as int);
}

// ---------------------------------------------------------------------------
// Starting a receiver that sends to two local ports
// ---------------------------------------------------------------------------

/// What has to be done next to start the receiver.
#[derive(Debug, Clone, Copy, PartialEq, Eq, Structural)]
pub enum RtpAction {
    /// Find a free local port.
    AllocatePort,
    /// Write the description of the stream into its file.
    WriteDescription(Codec),
    /// Start the decoder.
    SpawnDecoder(Codec),
    /// Find the media runtime that ships with the application.
    FindRuntime,
    /// Start the receiver.
    SpawnReceiver,
    /// Everything runs.
    Started,
    /// Give up; what has been done so far is undone as `undo_of` says.
    Fail(RtpFailure),
}

/// Why the receiver was not started.
#[derive(Debug, Clone, Copy, PartialEq, Eq, Structural)]
pub enum RtpFailure {
    NoPort,
    NoDescription(Codec),
    NoDecoder(Codec),
    NoRuntime,
    NoReceiver,
}

/// What came of an action.
#[derive(Debug, Clone, Copy, PartialEq, Eq, Structural)]
pub enum RtpReply {
    /// A free port.
    Port(u16),
    Done,
    Failed,
}

/// The start of a receiver, as far as it has come.
#[derive(Debug, Clone, Copy, PartialEq, Eq, Structural)]
pub struct RtpStart {
    pub action: RtpAction,
    pub h264_port: Option<u16>,
    pub h265_port: Option<u16>,
}

/// Something that a failed start has left behind.
#[derive(Debug, Clone, Copy, PartialEq, Eq, Structural)]
pub enum RtpLeftover {
    Description(Codec),
    Decoder(Codec),
}

impl RtpStart {
    /// The start after its action has been answered. `runtime_needed` says whether the
    /// platform needs the media runtime that ships with the application.
    pub open spec fn next(self, reply: RtpReply, runtime_needed: bool) -> RtpStart {
        match self.action {
            RtpAction::AllocatePort => match reply {
                RtpReply::Port(p) => if self.h264_port is None {
                    RtpStart { h264_port: Some(p), ..self }
                } else if self.h264_port == Some(p) {
                    self
                } else {
                    RtpStart {
                        h265_port: Some(p),
                        action: RtpAction::WriteDescription(Codec::H264),
                        ..self
                    }
                },
                _ => RtpStart { action: RtpAction::Fail(RtpFailure::NoPort), ..self },
            },
            RtpAction::WriteDescription(c) => RtpStart {
                action: if reply is Failed {
                    RtpAction::Fail(RtpFailure::NoDescription(c))
                } else if c is H264 {
                    RtpAction::WriteDescription(Codec::H265)
                } else {
                    RtpAction::SpawnDecoder(Codec::H264)
                },
                ..self
            },
            RtpAction::SpawnDecoder(c) => RtpStart {
                action: if reply is Failed {
                    RtpAction::Fail(RtpFailure::NoDecoder(c))
                } else if c is H264 {
                    RtpAction::SpawnDecoder(Codec::H265)
                } else {
                    RtpAction::FindRuntime
                },
                ..self
            },
            RtpAction::FindRuntime => RtpStart {
                action: if reply is Failed && runtime_needed {
                    RtpAction::Fail(RtpFailure::NoRuntime)
                } else {
                    RtpAction::SpawnReceiver
                },
                ..self
            },
            RtpAction::SpawnReceiver => RtpStart {
                action: if reply is Failed {
                    RtpAction::Fail(RtpFailure::NoReceiver)
                } else {
                    RtpAction::Started
                },
                ..self
            },
            RtpAction::Started | RtpAction::Fail(_) => self,
        }
    }

    /// Before the first port is known.
    pub fn begin() -> (r: RtpStart)
        ensures
            r == (RtpStart { action: RtpAction::AllocatePort, h264_port: None, h265_port: None }),
    {
        RtpStart { action: RtpAction::AllocatePort, h264_port: None, h265_port: None }
    }

    /// Takes the answer to the action and says what to do next. A second port that equals the
    /// first one is asked for again.
    pub fn advance(&mut self, reply: RtpReply, platform: HostPlatform)
        ensures
            *final(self) == old(self).next(reply, !(platform is Other)),
    {
        let failed = matches!(reply, RtpReply::Failed);
        let needed = !matches!(platform, HostPlatform::Other);
        match self.action {
            RtpAction::AllocatePort => match reply {
                RtpReply::Port(p) => match self.h264_port {
                    None => {
                        self.h264_port = Some(p);
                    },
                    Some(first) => {
                        if first != p {
                            self.h265_port = Some(p);
                            self.action = RtpAction::WriteDescription(Codec::H264);
                        }
                    },
                },
                _ => {
                    self.action = RtpAction::Fail(RtpFailure::NoPort);
                },
            },
            RtpAction::WriteDescription(c) => {
                self.action = if failed {
                    RtpAction::Fail(RtpFailure::NoDescription(c))
                } else {
                    match c {
                        Codec::H264 => RtpAction::WriteDescription(Codec::H265),
                        Codec::H265 => RtpAction::SpawnDecoder(Codec::H264),
                    }
                };
            },
            RtpAction::SpawnDecoder(c) => {
                self.action = if failed {
                    RtpAction::Fail(RtpFailure::NoDecoder(c))
                } else {
                    match c {
                        Codec::H264 => RtpAction::SpawnDecoder(Codec::H265),
                        Codec::H265 => RtpAction::FindRuntime,
                    }
                };
            },
            RtpAction::FindRuntime => {
                self.action = if failed && needed {
                    RtpAction::Fail(RtpFailure::NoRuntime)
                } else {
                    RtpAction::SpawnReceiver
                };
            },
            RtpAction::SpawnReceiver => {
                self.action = if failed {
                    RtpAction::Fail(RtpFailure::NoReceiver)
                } else {
                    RtpAction::Started
                };
            },
            RtpAction::Started | RtpAction::Fail(_) => {},
        }
    }
}

/// What a start that failed has made: the descriptions that were written and the decoders that
/// were started.
pub open spec fn made_before(failure: RtpFailure) -> Seq<RtpLeftover> {
    match failure {
        RtpFailure::NoPort => Seq::empty(),
        RtpFailure::NoDescription(Codec::H264) => Seq::empty(),
        RtpFailure::NoDescription(Codec::H265) => seq![RtpLeftover::Description(Codec::H264)],
        RtpFailure::NoDecoder(Codec::H264) => seq![
            RtpLeftover::Description(Codec::H264),
            RtpLeftover::Description(Codec::H265),
        ],
        RtpFailure::NoDecoder(Codec::H265) => seq![
            RtpLeftover::Decoder(Codec::H264),
            RtpLeftover::Description(Codec::H264),
            RtpLeftover::Description(Codec::H265),
        ],
        RtpFailure::NoRuntime | RtpFailure::NoReceiver => seq![
            RtpLeftover::Decoder(Codec::H264),
            RtpLeftover::Decoder(Codec::H265),
            RtpLeftover::Description(Codec::H264),
            RtpLeftover::Description(Codec::H265),
        ],
    }
}

/// What a failed start removes.
pub open spec fn undone(failure: RtpFailure) -> Seq<RtpLeftover> {
    if failure is NoRuntime {
        Seq::empty()
    } else {
        made_before(failure)
    }
}

/// What a failed start removes: all that it has made. A start that only lacks the media
/// runtime removes nothing.
pub fn undo_of(failure: RtpFailure) -> (r: Vec<RtpLeftover>)
    ensures
        r@ == undone(failure),
{
    let mut out: Vec<RtpLeftover> = Vec::new();
    match failure {
        RtpFailure::NoPort | RtpFailure::NoDescription(Codec::H264) | RtpFailure::NoRuntime => {},
        RtpFailure::NoDescription(Codec::H265) => {
            out.push(RtpLeftover::Description(Codec::H264));
        },
        RtpFailure::NoDecoder(Codec::H264) => {
            out.push(RtpLeftover::Description(Codec::H264));
            out.push(RtpLeftover::Description(Codec::H265));
        },
        RtpFailure::NoDecoder(Codec::H265) => {
            out.push(RtpLeftover::Decoder(Codec::H264));
            out.push(RtpLeftover::Description(Codec::H264));
            out.push(RtpLeftover::Description(Codec::H265));
        },
        RtpFailure::NoReceiver => {
            out.push(RtpLeftover::Decoder(Codec::H264));
            out.push(RtpLeftover::Decoder(Codec::H265));
            out.push(RtpLeftover::Description(Codec::H264));
            out.push(RtpLeftover::Description(Codec::H265));
        },
    }
    out
}

/// What a failed start is reported with; `why` is what the failed action said.
pub open spec fn rtp_error(failure: RtpFailure, why: AdapterError<Seq<char>>) -> AdapterError<
    Seq<char>,
> {
    let detail = match why {
        AdapterError::Failed(s) => s,
        _ => Seq::empty(),
    };
    match failure {
        RtpFailure::NoPort => why,
        RtpFailure::NoDescription(Codec::H264) => AdapterError::Failed(
            "创建 iOS H.264 RTP SDP 失败："@ + detail,
        ),
        RtpFailure::NoDescription(Codec::H265) => AdapterError::Failed(
            "创建 iOS H.265 RTP SDP 失败："@ + detail,
        ),
        RtpFailure::NoDecoder(Codec::H264) => AdapterError::Failed(
            "启动 iOS H.264 ffmpeg 解码器失败："@ + detail,
        ),
        RtpFailure::NoDecoder(Codec::H265) => AdapterError::Failed(
            "启动 iOS H.265 ffmpeg 解码器失败："@ + detail,
        ),
        RtpFailure::NoRuntime => AdapterError::DependencyMissing(no_runtime_text()),
        RtpFailure::NoReceiver => AdapterError::Failed("启动 UxPlay 失败："@ + detail),
    }
}

/// What a missing media runtime is reported with.
pub open spec fn no_runtime_text() -> Seq<char> {
    "未找到随应用分发的 UxPlay GStreamer 运行时；请运行 pnpm sidecars:uxplay，不能依赖宿主机安装"@
}

/// What a missing media runtime is reported with.
pub fn runtime_missing() -> (r: AdapterError)
    ensures
        r@ == AdapterError::DependencyMissing(no_runtime_text()),
{
    AdapterError::DependencyMissing(
        text::own(
            "未找到随应用分发的 UxPlay GStreamer 运行时；请运行 pnpm sidecars:uxplay，不能依赖宿主机安装",
        ),
    )
}

/// What a failed start is reported with; `detail` is what the failed action said.
pub fn report_rtp_failure(failure: RtpFailure, detail: &str) -> (r: AdapterError)
    ensures
        r@ == rtp_error(failure, AdapterError::Failed(detail@)),
{
    let head = match failure {
        RtpFailure::NoPort => {
            return AdapterError::Failed(text::own(detail));
        },
        RtpFailure::NoRuntime => {
            return runtime_missing();
        },
        RtpFailure::NoDescription(Codec::H264) => "创建 iOS H.264 RTP SDP 失败：",
        RtpFailure::NoDescription(Codec::H265) => "创建 iOS H.265 RTP SDP 失败：",
        RtpFailure::NoDecoder(Codec::H264) => "启动 iOS H.264 ffmpeg 解码器失败：",
        RtpFailure::NoDecoder(Codec::H265) => "启动 iOS H.265 ffmpeg 解码器失败：",
        RtpFailure::NoReceiver => "启动 UxPlay 失败：",
    };
    AdapterError::Failed(text::cat2(head, detail))
}

/// A start goes on only with two different ports.
pub open spec fn ports_chosen(s: RtpStart) -> bool {
    match s.action {
        RtpAction::AllocatePort | RtpAction::Fail(RtpFailure::NoPort) => s.h265_port is None,
        _ => s.h264_port is Some && s.h265_port is Some && s.h264_port != s.h265_port,
    }
}

/// Once the ports are chosen they stay, and they differ.
pub proof fn ports_differ(s: RtpStart, reply: RtpReply, runtime_needed: bool)
    requires
        ports_chosen(s),
    ensures
        ports_chosen(s.next(reply, runtime_needed)),
        !(s.action is AllocatePort) ==> s.next(reply, runtime_needed).h264_port == s.h264_port
            && s.next(reply, runtime_needed).h265_port == s.h265_port,
{
}

/// A path of a program and whether it exists.
pub open spec fn program_view(p: Option<(String, bool)>) -> Option<(Seq<char>, bool)> {
    match p {
        Some((path, exists)) => Some((path@, exists)),
        None => None,
    }
}

/// What stops the start of a receiver before anything is done; nothing where it may start.
pub open spec fn start_obstacle(
    platform: HostPlatform,
    running: bool,
    receiver: Option<(Seq<char>, bool)>,
    decoder: Option<(Seq<char>, bool)>,
) -> Option<AdapterError<Seq<char>>> {
    if running {
        Some(AdapterError::Busy("镜像子进程已在运行"@))
    } else {
        match receiver {
            None => Some(AdapterError::DependencyMissing("UxPlay 二进制路径未配置"@)),
            Some((p, false)) => Some(
                AdapterError::DependencyMissing("UxPlay 二进制缺失："@ + p),
            ),
            Some((_, true)) => if platform is MacOs {
                None
            } else {
                match decoder {
                    None => Some(AdapterError::DependencyMissing("iOS 画面解码需要 ffmpeg"@)),
                    Some((p, false)) => Some(
                        AdapterError::DependencyMissing("ffmpeg 二进制缺失："@ + p),
                    ),
                    Some((_, true)) => None,
                }
            },
        }
    }
}

/// What may stop the start of a receiver before anything is done: one is running already, or
/// a program is missing. `receiver` and `decoder` are the configured paths and whether they
/// exist; the decoder is not needed on macOS.
pub fn check_start(
    platform: HostPlatform,
    running: bool,
    receiver: &Option<(String, bool)>,
    decoder: &Option<(String, bool)>,
) -> (r: Result<(), AdapterError>)
    ensures
        ({
            let obstacle = start_obstacle(
                platform,
                running,
                program_view(*receiver),
                program_view(*decoder),
            );
            match r {
                Ok(_) => obstacle is None,
                Err(e) => obstacle == Some(e@),
            }
        }),
{
    if running {
        return Err(AdapterError::Busy(text::own("镜像子进程已在运行")));
    }
    match receiver {
        None => {
            return Err(AdapterError::DependencyMissing(text::own("UxPlay 二进制路径未配置")));
        },
        Some((p, exists)) => {
            if !*exists {
                return Err(
                    AdapterError::DependencyMissing(
                        text::cat2("UxPlay 二进制缺失：", p.as_str()),
                    ),
                );
            }
        },
    }
    match platform {
        HostPlatform::MacOs => {
            return Ok(());
        },
        _ => {},
    }
    match decoder {
        None => Err(AdapterError::DependencyMissing(text::own("iOS 画面解码需要 ffmpeg"))),
        Some((p, exists)) => {
            if !*exists {
                Err(
                    AdapterError::DependencyMissing(
                        text::cat2("ffmpeg 二进制缺失：", p.as_str()),
                    ),
                )
            } else {
                Ok(())
            }
        },
    }
}

/// The part of the first log line that names the media runtime.
pub open spec fn runtime_note(runtime: Option<Seq<char>>) -> Seq<char> {
    match runtime {
        Some(r) => "，UxPlay 运行时 "@ + r,
        None => ""@,
    }
}

/// The line that asks the user to connect.
pub open spec fn waiting_line() -> Seq<char> {
    "iOS 正在等待 AirPlay 连接：请在 iPhone 控制中心打开“屏幕镜像”，选择 "@ + crate::APP_NAME@
        + "；iPhone 与此电脑必须在同一局域网（USB 仅用于识别设备）"@
}

/// The size of the frames as text.
pub open spec fn frame_size_text() -> Seq<char> {
    text::dec(IOS_OUTPUT_WIDTH as nat) + "x"@ + text::dec(IOS_OUTPUT_HEIGHT as nat)
}

/// What is reported when the receiver runs. `ports` are the two local ports, where it uses
/// them.
pub open spec fn started_events(
    ports: Option<(u16, u16)>,
    airplay_port: u16,
    runtime: Option<Seq<char>>,
) -> Seq<MirrorEvent<Seq<char>>> {
    seq![
        MirrorEvent::Metadata { width: IOS_OUTPUT_WIDTH, height: IOS_OUTPUT_HEIGHT },
        MirrorEvent::LogLine(
            (match ports {
                Some((a, b)) => "UxPlay 已启动为无界面接收器（H.264/H.265 RTP 127.0.0.1:"@
                    + text::dec(a as nat) + "/"@ + text::dec(b as nat) + " → 内置 ffmpeg RGBA "@,
                None => "UxPlay 已启动为无界面接收器（内置 GStreamer RGBA "@,
            }) + frame_size_text() + "，AirPlay 端口 "@ + text::dec(airplay_port as nat)
                + runtime_note(runtime) + "）"@,
        ),
        MirrorEvent::LogLine(waiting_line()),
    ]
}

/// What is reported when the receiver runs.
pub fn report_started(
    ports: Option<(u16, u16)>,
    airplay_port: u16,
    runtime: &Option<String>,
) -> (r: Vec<MirrorEvent>)
    ensures
        event_views(r@) == started_events(ports, airplay_port, text::opt_text(*runtime)),
{
    let head = match ports {
        Some((a, b)) => text::cat5(
            "UxPlay 已启动为无界面接收器（H.264/H.265 RTP 127.0.0.1:",
            text::decimal(a as u64).as_str(),
            "/",
            text::decimal(b as u64).as_str(),
            " → 内置 ffmpeg RGBA ",
        ),
        None => text::own("UxPlay 已启动为无界面接收器（内置 GStreamer RGBA "),
    };
    let size = text::cat3(
        text::decimal(IOS_OUTPUT_WIDTH as u64).as_str(),
        "x",
        text::decimal(IOS_OUTPUT_HEIGHT as u64).as_str(),
    );
    let note = match runtime {
        Some(p) => text::cat2("，UxPlay 运行时 ", p.as_str()),
        None => text::own(""),
    };
    let mut line = text::cat5(
        head.as_str(),
        size.as_str(),
        "，AirPlay 端口 ",
        text::decimal(airplay_port as u64).as_str(),
        note.as_str(),
    );
    line.append("）");
    let waiting = text::cat3(
        "iOS 正在等待 AirPlay 连接：请在 iPhone 控制中心打开“屏幕镜像”，选择 ",
        crate::APP_NAME,
        "；iPhone 与此电脑必须在同一局域网（USB 仅用于识别设备）",
    );
    let mut out: Vec<MirrorEvent> = Vec::new();
    out.push(MirrorEvent::Metadata { width: IOS_OUTPUT_WIDTH, height: IOS_OUTPUT_HEIGHT });
    out.push(MirrorEvent::LogLine(line));
    out.push(MirrorEvent::LogLine(waiting));
    assert(event_views(out@) =~= started_events(ports, airplay_port, text::opt_text(*runtime)));
    out
}

// ---------------------------------------------------------------------------
// Watching the processes
// ---------------------------------------------------------------------------

/// What a line on the standard output of the receiver reports: that a phone is connected, then
/// the picture size, or the line itself. `skip_blank` leaves out blank lines.
pub open spec fn stdout_events(line: Seq<char>, skip_blank: bool) -> Seq<MirrorEvent<Seq<char>>> {
    let l = sanitized(line);
    let head = if tells_connection(l) {
        seq![MirrorEvent::MirrorConnected]
    } else {
        Seq::empty()
    };
    match resolution_in(l) {
        Some((w, h)) => head.push(
            MirrorEvent::Metadata { width: w as u32, height: h as u32 },
        ),
        None => if skip_blank && l.len() == 0 {
            head
        } else {
            head.push(MirrorEvent::LogLine(l))
        },
    }
}

/// What a line on the standard output of the receiver reports.
pub fn read_stdout_line(line: &str, skip_blank: bool) -> (r: Vec<MirrorEvent>)
    ensures
        event_views(r@) == stdout_events(line@, skip_blank),
{
    let l = sanitize_log_line(line);
    let mut out: Vec<MirrorEvent> = Vec::new();
    if is_uxplay_connected_log(l.as_str()) {
        out.push(MirrorEvent::MirrorConnected);
    }
    match parse_resolution(l.as_str()) {
        Some((width, height)) => {
            out.push(MirrorEvent::Metadata { width, height });
        },
        None => {
            if !(skip_blank && l.as_str().is_empty()) {
                out.push(MirrorEvent::LogLine(l));
            }
        },
    }
    assert(event_views(out@) =~= stdout_events(line@, skip_blank));
    out
}

/// What a line on the error output of the receiver reports.
pub open spec fn stderr_events(line: Seq<char>) -> Seq<MirrorEvent<Seq<char>>> {
    let l = sanitized(text::trimmed(line));
    if l.len() == 0 {
        Seq::empty()
    } else if tells_connection(l) {
        seq![MirrorEvent::MirrorConnected, MirrorEvent::LogLine("uxplay: "@ + l)]
    } else {
        seq![MirrorEvent::LogLine("uxplay: "@ + l)]
    }
}

/// What a line on the error output of the receiver reports.
pub fn read_stderr_line(line: &str) -> (r: Vec<MirrorEvent>)
    ensures
        event_views(r@) == stderr_events(line@),
{
    let l = sanitize_log_line(text::trim(line).as_str());
    let mut out: Vec<MirrorEvent> = Vec::new();
    if !l.as_str().is_empty() {
        if is_uxplay_connected_log(l.as_str()) {
            out.push(MirrorEvent::MirrorConnected);
        }
        out.push(MirrorEvent::LogLine(text::cat2("uxplay: ", l.as_str())));
    }
    assert(event_views(out@) =~= stderr_events(line@));
    out
}

/// The name of a codec.
pub open spec fn codec_text(codec: Codec) -> Seq<char> {
    match codec {
        Codec::H264 => "h264"@,
        Codec::H265 => "h265"@,
    }
}

pub fn codec_name(codec: Codec) -> (r: &'static str)
    ensures
        r@ == codec_text(codec),
{
    match codec {
        Codec::H264 => "h264",
        Codec::H265 => "h265",
    }
}

/// The log of a decoder, which is cut off after so many lines.
pub struct DecoderLog {
    pub codec: Codec,
    pub emitted: usize,
    pub cut_off: bool,
}

impl DecoderLog {
    pub fn new(codec: Codec) -> (r: Self)
        ensures
            r == (DecoderLog { codec, emitted: 0, cut_off: false }),
    {
        DecoderLog { codec, emitted: 0, cut_off: false }
    }

    /// What a line of the decoder is logged as. After the last line that is kept, one more
    /// says that the rest is left out.
    pub fn line(&mut self, raw: &str) -> (r: Option<String>)
        requires
            old(self).emitted <= MAX_DECODER_LOG_LINES,
        ensures
            final(self).emitted <= MAX_DECODER_LOG_LINES,
            final(self).codec == old(self).codec,
            ({
                let l = sanitized(text::trimmed(raw@));
                if l.len() == 0 {
                    r is None && *final(self) == *old(self)
                } else if old(self).emitted < MAX_DECODER_LOG_LINES {
                    text::opt_text(r) == Some(
                        "ios-ffmpeg["@ + codec_text(old(self).codec) + "]: "@ + l,
                    ) && *final(self) == (DecoderLog {
                        emitted: (old(self).emitted + 1) as usize,
                        ..*old(self)
                    })
                } else if !old(self).cut_off {
                    text::opt_text(r) == Some(
                        "ios-ffmpeg["@ + codec_text(old(self).codec) + "]: 后续解码日志已省略"@,
                    ) && *final(self) == (DecoderLog { cut_off: true, ..*old(self) })
                } else {
                    r is None && *final(self) == *old(self)
                }
            }),
    {
        let l = sanitize_log_line(text::trim(raw).as_str());
        if l.as_str().is_empty() {
            return None;
        }
        if self.emitted < MAX_DECODER_LOG_LINES {
            self.emitted = self.emitted + 1;
            Some(text::cat4("ios-ffmpeg[", codec_name(self.codec), "]: ", l.as_str()))
        } else if !self.cut_off {
            self.cut_off = true;
            Some(
                text::cat3("ios-ffmpeg[", codec_name(self.codec), "]: 后续解码日志已省略"),
            )
        } else {
            None
        }
    }
}

/// The two decoders: which of them still run, which one has won, and whether the mirror is
/// running at all.
#[derive(Debug, Clone, Copy, PartialEq, Eq, Structural)]
pub struct DecoderRace {
    pub running: bool,
    pub winner: Option<Codec>,
    pub h264_alive: bool,
    pub h265_alive: bool,
}

/// What is to be done with a frame.
#[derive(Debug, Clone, Copy, PartialEq, Eq, Structural)]
pub enum FrameVerdict {
    /// The first frame: the other decoder is stopped, the frame is reported and shown.
    First,
    Show,
    /// A frame of the decoder that did not win.
    Drop,
}

/// What is to be done when a process has ended.
#[derive(Debug, Clone, Copy, PartialEq, Eq, Structural)]
pub enum ExitVerdict {
    /// It is reported as a crash.
    Crash,
    /// The stream is not in this codec; the other decoder goes on.
    Mismatch,
    Nothing,
}

impl DecoderRace {
    pub fn new() -> (r: Self)
        ensures
            r == (DecoderRace {
                running: true,
                winner: None,
                h264_alive: true,
                h265_alive: true,
            }),
    {
        DecoderRace { running: true, winner: None, h264_alive: true, h265_alive: true }
    }

    /// What is to be done with a whole frame of a decoder.
    pub open spec fn frame_verdict(self, codec: Codec) -> FrameVerdict {
        match self.winner {
            None => FrameVerdict::First,
            Some(w) => if w == codec {
                FrameVerdict::Show
            } else {
                FrameVerdict::Drop
            },
        }
    }

    /// The race after a whole frame of a decoder.
    pub open spec fn with_frame(self, codec: Codec) -> DecoderRace {
        DecoderRace {
            winner: Some(
                match self.winner {
                    None => codec,
                    Some(w) => w,
                },
            ),
            ..self
        }
    }

    /// What the end of the receiver means.
    pub open spec fn receiver_verdict(self) -> ExitVerdict {
        if self.running {
            ExitVerdict::Crash
        } else {
            ExitVerdict::Nothing
        }
    }

    /// Once the mirror has ended.
    pub open spec fn ended(self) -> DecoderRace {
        DecoderRace { running: false, ..self }
    }

    /// What is to be done when a decoder has ended by itself.
    pub open spec fn exit_verdict(self, codec: Codec) -> ExitVerdict {
        if self.lost_by(codec) {
            if self.running {
                ExitVerdict::Crash
            } else {
                ExitVerdict::Nothing
            }
        } else if self.winner is None {
            ExitVerdict::Mismatch
        } else {
            ExitVerdict::Nothing
        }
    }

    /// The race after a decoder has ended by itself.
    pub open spec fn after_exit(self, codec: Codec) -> DecoderRace {
        DecoderRace {
            running: self.running && !self.lost_by(codec),
            ..self.without(codec)
        }
    }

    /// A decoder has put out a whole frame.
    pub fn frame(&mut self, codec: Codec) -> (r: FrameVerdict)
        ensures
            r == old(self).frame_verdict(codec),
            *final(self) == old(self).with_frame(codec),
    {
        match self.winner {
            None => {
                self.winner = Some(codec);
                FrameVerdict::First
            },
            Some(w) => {
                if w == codec {
                    FrameVerdict::Show
                } else {
                    FrameVerdict::Drop
                }
            },
        }
    }

    /// Whether the end of the frames of a decoder is logged: while mirroring goes on, and of two
    /// decoders only that of the one whose frames are shown.
    pub fn logs_end(&self, codec: Codec, alone: bool) -> (r: bool)
        ensures
            r == (self.running && (alone || self.winner == Some(codec))),
    {
        self.running && (alone || match self.winner {
            Some(w) => w == codec,
            None => false,
        })
    }

    /// The race after a decoder has ended, before anything is reported.
    pub open spec fn without(self, codec: Codec) -> DecoderRace {
        match codec {
            Codec::H264 => DecoderRace { h264_alive: false, ..self },
            Codec::H265 => DecoderRace { h265_alive: false, ..self },
        }
    }

    /// Whether the end of a decoder ends the mirror: the winner has ended, or nobody has won
    /// and no decoder is left.
    pub open spec fn lost_by(self, codec: Codec) -> bool {
        let rest = self.without(codec);
        self.winner == Some(codec) || (self.winner is None && !rest.h264_alive
            && !rest.h265_alive)
    }

    /// A decoder has ended by itself. The end of the mirror is reported once.
    pub fn decoder_exited(&mut self, codec: Codec) -> (r: ExitVerdict)
        ensures
            r == old(self).exit_verdict(codec),
            *final(self) == old(self).after_exit(codec),
    {
        match codec {
            Codec::H264 => {
                self.h264_alive = false;
            },
            Codec::H265 => {
                self.h265_alive = false;
            },
        }
        let lost = match self.winner {
            Some(w) => w == codec,
            None => !self.h264_alive && !self.h265_alive,
        };
        if lost {
            let was = self.running;
            self.running = false;
            if was {
                ExitVerdict::Crash
            } else {
                ExitVerdict::Nothing
            }
        } else if self.winner.is_none() {
            ExitVerdict::Mismatch
        } else {
            ExitVerdict::Nothing
        }
    }

    /// The receiver has ended by itself. The end of the mirror is reported once.
    pub fn receiver_exited(&mut self) -> (r: ExitVerdict)
        ensures
            r == old(self).receiver_verdict(),
            *final(self) == old(self).ended(),
    {
        let was = self.running;
        self.running = false;
        if was {
            ExitVerdict::Crash
        } else {
            ExitVerdict::Nothing
        }
    }

    /// The mirror is stopped: what ends from now on is no crash.
    pub fn stop(&mut self)
        ensures
            *final(self) == old(self).ended(),
    {
        self.running = false;
    }
}

/// The report about a decoder that did not match the stream.
pub fn mismatch_line(codec: Codec) -> (r: String)
    ensures
        r@ == "iOS "@ + codec_text(codec) + " 解码探测未匹配，继续等待另一种视频编码"@,
{
    text::cat3("iOS ", codec_name(codec), " 解码探测未匹配，继续等待另一种视频编码")
}

// ---------------------------------------------------------------------------
// Receivers that were left behind
// ---------------------------------------------------------------------------

/// The process on a line of `ps -axo pid=,command=`, if it is a receiver of this application:
/// its command begins with the path of the receiver and names the service.
pub open spec fn stale_pid(line: Seq<char>, path: Seq<char>, ignore_pid: u32) -> Option<u32> {
    let t = text::trimmed(line);
    let e = text::find_from(t, |c: char| text::is_space(c), 0);
    if e >= t.len() {
        None
    } else {
        match text::parsed(t.take(e), u32::MAX as nat) {
            None => None,
            Some(pid) => {
                let command = text::trimmed_start(t.skip(e));
                if pid == ignore_pid || !text::stands_at(command, path, 0) || !text::occurs(
                    command,
                    " -n "@ + crate::APP_NAME@,
                ) {
                    None
                } else {
                    Some(pid as u32)
                }
            },
        }
    }
}

/// The process on a line of `ps -axo pid=,command=`, if it is a receiver of this application
/// and not the process `ignore_pid`.
pub fn parse_orphan_line(line: &str, uxplay_path: &str, ignore_pid: u32) -> (r: Option<u32>)
    ensures
        r == stale_pid(line@, uxplay_path@, ignore_pid),
{
    let t = text::trim(line);
    let v = text::chars_of(t.as_str());
    let ghost f = |c: char| text::is_space(c);
    let n: usize = v.len();
    let mut e: usize = 0;
    while e < n && !text::is_white_space(v[e])
        invariant
            n == v@.len(),
            e <= n,
            f == (|c: char| text::is_space(c)),
            forall|j: int| 0 <= j < e ==> !f(#[trigger] v@[j]),
        decreases n - e,
    {
        e = e + 1;
    }
    proof {
        text::lemma_find_from_is(v@, f, 0, e as int);
    }
    if e >= n {
        return None;
    }
    let number = text::text_of(vstd::slice::slice_subrange(&v, 0, e));
    let rest = text::text_of(vstd::slice::slice_subrange(&v, e, n));
    assert(number@ =~= t@.take(e as int));
    assert(rest@ =~= t@.skip(e as int));
    let pid = match text::parse_number(number.as_str(), u32::MAX as u64) {
        None => {
            return None;
        },
        Some(pid) => pid as u32,
    };
    let command = text::trim_start(rest.as_str());
    let service = text::cat2(" -n ", crate::APP_NAME);
    if pid == ignore_pid || !text::starts_with(command.as_str(), uxplay_path) || !text::contains(
        command.as_str(),
        service.as_str(),
    ) {
        None
    } else {
        Some(pid)
    }
}

/// The first process that a line names as a receiver at one of the paths.
pub open spec fn stale_pid_at(line: Seq<char>, paths: Seq<Seq<char>>, ignore_pid: u32, from: int) -> Option<
    u32,
>
    decreases paths.len() - from,
{
    if from >= paths.len() {
        None
    } else {
        match stale_pid(line, paths[from], ignore_pid) {
            Some(pid) => Some(pid),
            None => stale_pid_at(line, paths, ignore_pid, from + 1),
        }
    }
}

fn find_stale(line: &str, paths: &Vec<String>, current: u32) -> (r: Option<u32>)
    ensures
        r == stale_pid_at(line@, text::texts(paths@), current, 0),
{
    let ghost all = text::texts(paths@);
    let mut i: usize = 0;
    while i < paths.len()
        invariant
            i <= paths@.len(),
            all == text::texts(paths@),
            stale_pid_at(line@, all, current, i as int) == stale_pid_at(line@, all, current, 0),
        decreases paths@.len() - i,
    {
        assert(all[i as int] == paths@[i as int]@);
        let p = parse_orphan_line(line, paths[i].as_str(), current);
        if p.is_some() {
            return p;
        }
        i = i + 1;
    }
    None
}

/// The receivers among the processes that the bytes list that `ps` prints; bytes that are no
/// text list none.
pub fn stale_receivers_printed(printed: Vec<u8>, paths: &Vec<String>, current: u32) -> (r: Vec<u32>)
    ensures
        r@ == (if vstd::utf8::valid_utf8(printed@) {
            seqs::collect(
                text::lines_of(vstd::utf8::decode_utf8(printed@)),
                |l: Seq<char>| stale_pid_at(l, text::texts(paths@), current, 0),
            )
        } else {
            Seq::empty()
        }),
{
    match text::from_utf8(printed) {
        Some(ps_output) => stale_receivers(ps_output.as_str(), paths, current),
        None => Vec::new(),
    }
}

/// The receivers of this application among the processes that `ps` lists, other than the
/// current process. They are left over from a run that was killed and hold its ports.
pub fn stale_receivers(ps_output: &str, paths: &Vec<String>, current: u32) -> (r: Vec<u32>)
    ensures
        r@ == seqs::collect(
            text::lines_of(ps_output@),
            |l: Seq<char>| stale_pid_at(l, text::texts(paths@), current, 0),
        ),
{
    let lines = text::lines(ps_output);
    let ghost all = text::lines_of(ps_output@);
    let ghost f = |l: Seq<char>| stale_pid_at(l, text::texts(paths@), current, 0);
    let mut out: Vec<u32> = Vec::new();
    let mut i: usize = 0;
    proof {
        seqs::lemma_collect_ends(all, f);
    }
    while i < lines.len()
        invariant
            i <= lines@.len(),
            text::texts(lines@) == all,
            f == (|l: Seq<char>| stale_pid_at(l, text::texts(paths@), current, 0)),
            out@ == seqs::collect(all.take(i as int), f),
        decreases lines@.len() - i,
    {
        proof {
            seqs::lemma_collect_step(all, f, i as int);
            assert(all[i as int] == lines@[i as int]@);
        }
        match find_stale(lines[i].as_str(), paths, current) {
            Some(pid) => {
                out.push(pid);
            },
            None => {},
        }
        i = i + 1;
    }
    proof {
        seqs::lemma_collect_ends(all, f);
    }
    out
}

// ---------------------------------------------------------------------------
// The adapter
// ---------------------------------------------------------------------------

/// The receiver of one session: its configuration, the size of the stream and the newest
/// frame, which a window that is opened later is shown first.
pub struct UxPlayMirrorAdapter {
    pub config: UxPlayConfig,
    pub metadata: Option<(u32, u32)>,
    pub latest_frame: Option<RgbaFrame>,
}

impl UxPlayMirrorAdapter {
    pub fn new(config: UxPlayConfig) -> (r: Self)
        ensures
            r.config == config,
            r.metadata is None,
            r.latest_frame is None,
    {
        UxPlayMirrorAdapter { config, metadata: None, latest_frame: None }
    }

    /// A short name of the adapter.
    pub fn name(&self) -> (r: &'static str)
        ensures
            r@ == "uxplay"@,
    {
        "uxplay"
    }

    /// The size of the stream, as last reported.
    pub fn metadata(&self) -> (r: Option<(u32, u32)>)
        ensures
            r == self.metadata,
    {
        self.metadata
    }

    /// Tells a sink the size of the frames and shows it the newest frame, if there is one.
    pub fn attach_sink<S: FrameSink>(&self, sink: &mut S)
        ensures
            final(sink).told() == old(sink).told().push(
                SinkCall::Size { width: IOS_OUTPUT_WIDTH, height: IOS_OUTPUT_HEIGHT },
            ) + (match self.latest_frame {
                Some(f) => seq![SinkCall::Frame(f@)],
                None => Seq::empty(),
            }),
    {
        sink.on_size(IOS_OUTPUT_WIDTH, IOS_OUTPUT_HEIGHT);
        match &self.latest_frame {
            Some(f) => {
                sink.push(f);
            },
            None => {},
        }
    }

    /// Everything that was kept of the stream is dropped.
    pub fn forget(&mut self)
        ensures
            final(self).config == old(self).config,
            final(self).metadata is None,
            final(self).latest_frame is None,
    {
        self.metadata = None;
        self.latest_frame = None;
    }
}

// ---------------------------------------------------------------------------
// Laws
// ---------------------------------------------------------------------------

/// A picture size on a line is read as it stands, the width before the height, whatever words
/// stand before and between them, exactly where both are between 320 and 8000.
pub proof fn picture_sizes_read_back(
    before: Seq<char>,
    w: nat,
    between: Seq<char>,
    h: nat,
    behind: Seq<char>,
)
    requires
        forall|i: int| 0 <= i < before.len() ==> !text::is_digit(#[trigger] before[i]),
        forall|i: int| 0 <= i < between.len() ==> !text::is_digit(#[trigger] between[i]),
        between.len() > 0,
        behind.len() > 0 ==> !text::is_digit(behind[0]),
    ensures
        resolution_in(before + text::dec(w) + between + text::dec(h) + behind) == (if 320 <= w
            <= 8000 && 320 <= h <= 8000 {
            Some((w, h))
        } else {
            None
        }),
{
    let s = before + text::dec(w) + between + text::dec(h) + behind;
    let f = |c: char| !text::is_digit(c);
    let g = |s: Seq<char>|
        if s.len() == 0 {
            None
        } else {
            Some(s)
        };
    text::decimal_numbers_read_back(w, u32::MAX as nat);
    text::decimal_numbers_read_back(h, u32::MAX as nat);
    text::lemma_two_numbers(before, w, between, h, behind, g);
    let groups = seqs::collect(text::split_by(s, f), g);
    let two = seq![text::dec(w), text::dec(h)];
    assert(groups.subrange(0, 2)[0] == two[0] && groups.subrange(0, 2)[1] == two[1]);
    assert(groups[0] == text::dec(w) && groups[1] == text::dec(h));
}

/// The place of an action in the order of a start.
pub open spec fn place_of(action: RtpAction) -> int {
    match action {
        RtpAction::AllocatePort => 0,
        RtpAction::WriteDescription(Codec::H264) => 1,
        RtpAction::WriteDescription(Codec::H265) => 2,
        RtpAction::SpawnDecoder(Codec::H264) => 3,
        RtpAction::SpawnDecoder(Codec::H265) => 4,
        RtpAction::FindRuntime => 5,
        RtpAction::SpawnReceiver => 6,
        RtpAction::Started => 7,
        RtpAction::Fail(_) => 8,
    }
}

/// The action that fails with a failure.
pub open spec fn failing_action(failure: RtpFailure) -> RtpAction {
    match failure {
        RtpFailure::NoPort => RtpAction::AllocatePort,
        RtpFailure::NoDescription(c) => RtpAction::WriteDescription(c),
        RtpFailure::NoDecoder(c) => RtpAction::SpawnDecoder(c),
        RtpFailure::NoRuntime => RtpAction::FindRuntime,
        RtpFailure::NoReceiver => RtpAction::SpawnReceiver,
    }
}

/// The action that makes what a start leaves behind.
pub open spec fn making_action(made: RtpLeftover) -> RtpAction {
    match made {
        RtpLeftover::Description(c) => RtpAction::WriteDescription(c),
        RtpLeftover::Decoder(c) => RtpAction::SpawnDecoder(c),
    }
}

/// A start goes through its actions in their order, one by one, and fails with the action that
/// failed; only a media runtime that is not needed may be missing. Two different ports are asked
/// for before anything else. An end stays an end.
pub proof fn starts_go_in_order(s: RtpStart, port: u16, runtime_needed: bool)
    ensures
        0 < place_of(s.action) < 7 ==> place_of(s.next(RtpReply::Done, runtime_needed).action)
            == place_of(s.action) + 1,
        place_of(s.action) < 7 && (runtime_needed || !(s.action is FindRuntime)) ==> (s.next(
            RtpReply::Failed,
            runtime_needed,
        ).action matches RtpAction::Fail(f) && failing_action(f) == s.action),
        s.action is FindRuntime && !runtime_needed ==> s.next(RtpReply::Failed, runtime_needed)
            == s.next(RtpReply::Done, runtime_needed),
        place_of(s.action) >= 7 ==> s.next(RtpReply::Failed, runtime_needed) == s && s.next(
            RtpReply::Done,
            runtime_needed,
        ) == s,
        s.action is AllocatePort ==> {
            let n = s.next(RtpReply::Port(port), runtime_needed);
            &&& s.h264_port is None ==> n.h264_port == Some(port) && n.action is AllocatePort
            &&& s.h264_port == Some(port) ==> n == s
            &&& s.h264_port is Some && s.h264_port != Some(port) ==> n.h265_port == Some(port)
                && n.h264_port == s.h264_port && place_of(n.action) == 1
        },
{
}

/// What a start that failed has made is exactly what the actions before the failing one make.
/// All of it is removed, but for a start that only lacks the media runtime, which removes
/// nothing; decoders are stopped before their descriptions are removed.
pub proof fn failed_starts_remove_what_they_made(failure: RtpFailure, made: RtpLeftover)
    ensures
        made_before(failure).contains(made) <==> place_of(making_action(made)) < place_of(
            failing_action(failure),
        ),
        undone(failure).contains(made) <==> made_before(failure).contains(made) && !(failure
            is NoRuntime),
        forall|i: int, j: int|
            0 <= i < undone(failure).len() && 0 <= j < undone(failure).len() && (
            #[trigger] undone(failure)[i]) is Decoder && (#[trigger] undone(failure)[j])
                is Description ==> i < j,
{
    let all = made_before(failure);
    if place_of(making_action(made)) < place_of(failing_action(failure)) {
        match failure {
            RtpFailure::NoDescription(Codec::H265) => {
                assert(all[0] == made);
            },
            RtpFailure::NoDecoder(Codec::H264) => {
                assert(all[0] == made || all[1] == made);
            },
            RtpFailure::NoDecoder(Codec::H265) => {
                assert(all[0] == made || all[1] == made || all[2] == made);
            },
            _ => {
                assert(all[0] == made || all[1] == made || all[2] == made || all[3] == made);
            },
        }
    }
}

/// The first decoder with a frame wins and stays the winner; its frames are shown, those of the
/// other are dropped, and exactly one frame is the first.
pub proof fn one_decoder_wins(r: DecoderRace, first: Codec, codec: Codec)
    ensures
        r.winner is None ==> r.frame_verdict(first) is First && r.with_frame(first).winner == Some(
            first,
        ),
        r.winner is Some ==> !(r.frame_verdict(codec) is First) && r.with_frame(codec) == r,
        ({
            let w = r.with_frame(first);
            &&& !(w.frame_verdict(codec) is First)
            &&& w.frame_verdict(codec) is Show <==> w.winner == Some(codec)
            &&& w.with_frame(codec) == w
            &&& w.running == r.running && w.h264_alive == r.h264_alive && w.h265_alive
                == r.h265_alive
        }),
{
}

/// A mirror ends with its winner, or with the last decoder where none has won; a decoder that
/// ends before that only did not match the stream. The end is reported as a crash once: nothing
/// that ends afterwards is one, nor anything that ends after the mirror was stopped.
pub proof fn ends_are_reported_once(r: DecoderRace, codec: Codec, other: Codec)
    ensures
        r.exit_verdict(codec) is Crash <==> r.running && (r.winner == Some(codec) || (r.winner
            is None && (if codec is H264 {
            !r.h265_alive
        } else {
            !r.h264_alive
        }))),
        r.exit_verdict(codec) is Mismatch <==> r.winner is None && (if codec is H264 {
            r.h265_alive
        } else {
            r.h264_alive
        }),
        r.exit_verdict(codec) is Crash ==> !r.after_exit(codec).running,
        !(r.exit_verdict(codec) is Crash) ==> r.after_exit(codec).running == r.running,
        !r.running ==> !(r.exit_verdict(codec) is Crash) && !r.after_exit(codec).running,
        r.running && r.winner is None && codec != other && r.h264_alive && r.h265_alive
            ==> r.exit_verdict(codec) is Mismatch && r.after_exit(codec).exit_verdict(other)
            is Crash,
        r.after_exit(codec).winner == r.winner,
        codec is H264 ==> !r.after_exit(codec).h264_alive && r.after_exit(codec).h265_alive
            == r.h265_alive,
        codec is H265 ==> !r.after_exit(codec).h265_alive && r.after_exit(codec).h264_alive
            == r.h264_alive,
{
}

/// A line of the receiver tells of a connection exactly where it speaks of one, tells of a size
/// exactly where it holds one, and is itself passed on, without addresses, where it holds none;
/// the connection comes first.
pub proof fn lines_tell_what_they_say(line: Seq<char>, width: u32, height: u32, skip_blank: bool)
    ensures
        ({
            let l = sanitized(line);
            let all = stdout_events(line, skip_blank);
            &&& all.contains(MirrorEvent::MirrorConnected) <==> tells_connection(l)
            &&& tells_connection(l) ==> all[0] is MirrorConnected
            &&& all.contains(MirrorEvent::Metadata { width, height }) <==> resolution_in(l) == Some(
                (width as nat, height as nat),
            )
            &&& all.contains(MirrorEvent::LogLine(l)) <==> resolution_in(l) is None && !(skip_blank
                && l.len() == 0)
            &&& all.len() <= 2
        }),
{
    let l = sanitized(line);
    let all = stdout_events(line, skip_blank);
    let n: int = if tells_connection(l) {
        1
    } else {
        0
    };
    if tells_connection(l) {
        assert(all[0] == MirrorEvent::<Seq<char>>::MirrorConnected);
    }
    if resolution_in(l) is Some || !(skip_blank && l.len() == 0) {
        assert(all[n] == all.last());
    }
}

/// A receiver that runs first tells the size of its frames, and after that only lines.
pub proof fn receivers_tell_their_size_first(
    ports: Option<(u16, u16)>,
    airplay_port: u16,
    runtime: Option<Seq<char>>,
    i: int,
)
    ensures
        ({
            let all = started_events(ports, airplay_port, runtime);
            &&& all[0] matches MirrorEvent::Metadata { width, height } && width == 480 && height
                == 1040
            &&& 0 < i < all.len() ==> all[i] is LogLine
        }),
{
}

/// A receiver that was left behind is never the process that asks, and who asks does not matter
/// otherwise.
pub proof fn the_asking_process_is_left_alone(
    line: Seq<char>,
    path: Seq<char>,
    ignore: u32,
    other: u32,
)
    ensures
        stale_pid(line, path, ignore) != Some(ignore),
        stale_pid(line, path, ignore) matches Some(pid) ==> other != pid ==> stale_pid(
            line,
            path,
            other,
        ) == Some(pid),
        stale_pid(line, path, ignore) matches Some(pid) ==> stale_pid(line, path, pid) is None,
{
}

/// The value that stands behind a flag among arguments.
pub open spec fn behind_flag(words: Seq<Seq<char>>, flag: Seq<char>) -> Seq<char> {
    words[seqs::first_from(words, |w: Seq<char>| w == flag, 0) + 1]
}

/// A receiver is started under the name and on the port that it is given, whichever way it hands
/// out its frames.
pub proof fn receivers_get_their_name_and_port(
    service: Seq<char>,
    port: u16,
    h264_port: u16,
    h265_port: u16,
)
    requires
        service != "-p"@,
    ensures
        ({
            let a = rtp_words(service, port, h264_port, h265_port);
            let b = pipe_words(service, port);
            &&& behind_flag(a, "-n"@) == service && behind_flag(b, "-n"@) == service
            &&& text::parsed(behind_flag(a, "-p"@), u16::MAX as nat) == Some(port as nat)
            &&& text::parsed(behind_flag(b, "-p"@), u16::MAX as nat) == Some(port as nat)
        }),
{
    reveal_strlit("-n");
    reveal_strlit("-p");
    reveal_strlit("-nh");
    assert("-n"@[1] == 'n' && "-p"@[1] == 'p' && "-n"@.len() == 2 && "-p"@.len() == 2
        && "-nh"@.len() == 3);
    let a = rtp_words(service, port, h264_port, h265_port);
    let b = pipe_words(service, port);
    let f = |w: Seq<char>| w == "-p"@;
    let g = |w: Seq<char>| w == "-n"@;
    assert(!f(a[0]) && !f(a[1]) && !f(a[2]) && f(a[3]) && g(a[0]));
    assert(!f(b[0]) && !f(b[1]) && !f(b[2]) && f(b[3]) && g(b[0]));
    seqs::lemma_first_from_is(a, f, 0, 3);
    seqs::lemma_first_from_is(b, f, 0, 3);
    seqs::lemma_first_from_is(a, g, 0, 0);
    seqs::lemma_first_from_is(b, g, 0, 0);
    text::decimal_numbers_read_back(port as nat, u16::MAX as nat);
}

/// A stream is described by its own port and its own way of encoding.
pub proof fn descriptions_name_port_and_codec(port: u16)
    ensures
        ({
            let head = "v=0\r\no=- 0 0 IN IP4 127.0.0.1\r\ns="@ + crate::APP_NAME@
                + "\r\nc=IN IP4 127.0.0.1\r\nt=0 0\r\nm=video "@;
            let a = sdp_text(Codec::H264, port);
            let b = sdp_text(Codec::H265, port);
            let digits = text::dec(port as nat);
            &&& text::behind(a, head) matches Some(rest) && digits.is_prefix_of(rest)
                && text::behind(rest.skip(digits.len() as int), " RTP/AVP 96\r\na=rtpmap:96 H264"@)
                is Some
            &&& text::behind(b, head) matches Some(rest) && digits.is_prefix_of(rest)
                && text::behind(rest.skip(digits.len() as int), " RTP/AVP 96\r\na=rtpmap:96 H265"@)
                is Some
        }),
{
    let head = "v=0\r\no=- 0 0 IN IP4 127.0.0.1\r\ns="@ + crate::APP_NAME@
        + "\r\nc=IN IP4 127.0.0.1\r\nt=0 0\r\nm=video "@;
    let digits = text::dec(port as nat);
    reveal_strlit(" RTP/AVP 96\r\na=rtpmap:96 H264/90000\r\na=fmtp:96 packetization-mode=1\r\n");
    reveal_strlit(" RTP/AVP 96\r\na=rtpmap:96 H265/90000\r\n");
    reveal_strlit(" RTP/AVP 96\r\na=rtpmap:96 H264");
    reveal_strlit(" RTP/AVP 96\r\na=rtpmap:96 H265");
    let x = " RTP/AVP 96\r\na=rtpmap:96 H264/90000\r\na=fmtp:96 packetization-mode=1\r\n"@;
    let y = " RTP/AVP 96\r\na=rtpmap:96 H265/90000\r\n"@;
    lemma_description(head, digits, x, " RTP/AVP 96\r\na=rtpmap:96 H264"@);
    lemma_description(head, digits, y, " RTP/AVP 96\r\na=rtpmap:96 H265"@);
}

proof fn lemma_description(head: Seq<char>, digits: Seq<char>, tail: Seq<char>, start: Seq<char>)
    requires
        start.is_prefix_of(tail),
    ensures
        text::behind(head + digits + tail, head) == Some(digits + tail),
        digits.is_prefix_of(digits + tail),
        text::behind((digits + tail).skip(digits.len() as int), start) is Some,
{
    let s = head + digits + tail;
    assert(s.subrange(0, head.len() as int) =~= head);
    assert(s.skip(head.len() as int) =~= digits + tail);
    assert((digits + tail).skip(digits.len() as int) =~= tail);
    assert(tail.subrange(0, start.len() as int) =~= start);
}

/// The decoder reads the description that it is given and writes pixels of four bytes.
pub proof fn decoders_read_their_description(path: Seq<char>)
    ensures
        ({
            let all = decoder_words(path);
            &&& all.len() == 25 && all[24] == "pipe:1"@
            &&& all[9] == "-f"@ && all[10] == "sdp"@ && all[13] == "-i"@ && all[14] == path
            &&& all[20] == "-pix_fmt"@ && all[21] == "rgba"@
            &&& all[22] == "-vf"@ && all[23] == scale_filter()
        }),
{
}

/// A line of the receiver is passed on, and tells of a connection only where it speaks of one;
/// blank lines tell nothing.
pub proof fn lines_of_the_receiver_are_passed_on(line: Seq<char>)
    ensures
        ({
            let l = sanitized(text::trimmed(line));
            let all = stderr_events(line);
            &&& l.len() == 0 ==> all.len() == 0
            &&& l.len() > 0 ==> all.len() > 0 && all.last() == MirrorEvent::LogLine("uxplay: "@ + l)
            &&& l.len() > 0 ==> (all.len() == 2 <==> tells_connection(l))
            &&& l.len() > 0 ==> all.len() <= 2 && (all.len() == 2 ==> all[0] is MirrorConnected)
        }),
{
}

/// The name of a way of encoding is its own.
pub proof fn codecs_have_their_names(codec: Codec)
    ensures
        codec_text(codec) == "h264"@ <==> codec is H264,
        codec_text(codec) == "h265"@ <==> codec is H265,
{
    reveal_strlit("h264");
    reveal_strlit("h265");
    assert("h264"@[3] == '4' && "h265"@[3] == '5');
}

/// A process is stale exactly where it is by one of the paths, and the first that says so counts.
pub proof fn stale_processes_are_found_by_any_path(
    line: Seq<char>,
    paths: Seq<Seq<char>>,
    ignore: u32,
    from: int,
)
    requires
        0 <= from <= paths.len(),
    ensures
        stale_pid_at(line, paths, ignore, from) is Some <==> exists|i: int|
            from <= i < paths.len() && stale_pid(line, #[trigger] paths[i], ignore) is Some,
        stale_pid_at(line, paths, ignore, from) matches Some(pid) ==> exists|i: int|
            from <= i < paths.len() && stale_pid(line, #[trigger] paths[i], ignore) == Some(pid),
        stale_pid_at(line, paths, ignore, from) != Some(ignore),
    decreases paths.len() - from,
{
    if from < paths.len() {
        stale_processes_are_found_by_any_path(line, paths, ignore, from + 1);
        if stale_pid(line, paths[from], ignore) is None && stale_pid_at(
            line,
            paths,
            ignore,
            from + 1,
        ) is Some {
            let pid = stale_pid_at(line, paths, ignore, from + 1)->Some_0;
            let i = choose|i: int|
                from + 1 <= i < paths.len() && stale_pid(line, #[trigger] paths[i], ignore) == Some(
                    pid,
                );
            assert(stale_pid(line, paths[i], ignore) == Some(pid));
        }
    }
}

/// A start that failed says what could not be done: a port that could not be had is passed on, a
/// runtime that is not there is a missing dependency, and everything else is a failure that ends
/// in its reason.
pub proof fn failed_starts_say_what_failed(failure: RtpFailure, why: Seq<char>)
    ensures
        ({
            let e = rtp_error(failure, AdapterError::Failed(why));
            &&& failure is NoPort ==> e == AdapterError::Failed(why)
            &&& failure is NoRuntime <==> e is DependencyMissing
            &&& !(failure is NoRuntime) ==> (e matches AdapterError::Failed(s) && why.len()
                <= s.len() && s.skip(s.len() - why.len()) == why)
        }),
{
    match rtp_error(failure, AdapterError::Failed(why)) {
        AdapterError::Failed(s) => {
            assert(s.skip(s.len() - why.len()) =~= why);
        },
        _ => {},
    }
}

/// On a Mac the runtime is looked for beside each parent, the nearest first; elsewhere only beside
/// the nearest one.
pub proof fn runtimes_are_looked_for_near_the_program(
    near: Seq<char>,
    rest: Seq<Seq<char>>,
    far: Seq<char>,
)
    ensures
        runtime_dirs(HostPlatform::MacOs, rest.push(far)) == runtime_dirs(HostPlatform::MacOs, rest)
            + runtime_dirs_from(HostPlatform::MacOs, far),
        runtime_dirs(HostPlatform::MacOs, Seq::empty()).len() == 0,
        runtime_dirs(HostPlatform::Windows, seq![near] + rest) == runtime_dirs_from(
            HostPlatform::Windows,
            near,
        ),
        runtime_dirs(HostPlatform::Other, seq![near] + rest).len() == 0,
        runtime_dirs_from(HostPlatform::MacOs, near)[0] == integrations::below(
            HostPlatform::MacOs,
            near,
            "../Resources/binaries/gstreamer"@,
        ),
        runtime_dirs_from(HostPlatform::Windows, near)[0] == integrations::below(
            HostPlatform::Windows,
            near,
            "../resources/binaries/gstreamer"@,
        ),
{
    assert(rest.push(far).drop_last() =~= rest);
    assert((seq![near] + rest)[0] == near);
}

/// The receiver that ships with the application is looked for below its resources; on a Mac its
/// bundle comes first.
pub proof fn shipped_receivers_lie_below_the_resources(
    platform: HostPlatform,
    resources: Seq<char>,
    build_dir: Seq<char>,
)
    ensures
        shipped_uxplay(platform, resources, build_dir).last() == integrations::below(
            platform,
            integrations::below(platform, resources, "binaries"@),
            integrations::executable_name("uxplay"@, platform),
        ),
        shipped_uxplay(platform, resources, build_dir).len() == (if platform is MacOs {
            4nat
        } else {
            1nat
        }),
        platform is MacOs ==> shipped_uxplay(platform, resources, build_dir)[0]
            == integrations::below(
            platform,
            integrations::below(
                platform,
                resources,
                "binaries/uxplay-agent.app/Contents/MacOS"@,
            ),
            "uxplay"@,
        ),
{
}

/// A receiver starts where none runs yet and its programs are there; the decoder is not needed on
/// a Mac. That one runs already counts first, then the receiver, then the decoder.
pub proof fn receivers_start_where_everything_is_there(
    platform: HostPlatform,
    running: bool,
    receiver: Option<(Seq<char>, bool)>,
    decoder: Option<(Seq<char>, bool)>,
)
    ensures
        ({
            let e = start_obstacle(platform, running, receiver, decoder);
            let found = |p: Option<(Seq<char>, bool)>| p is Some && p->Some_0.1;
            &&& e is None <==> !running && found(receiver) && (platform is MacOs || found(decoder))
            &&& running <==> (e is Some && e->Some_0 is Busy)
            &&& e is Some && !running ==> e->Some_0 is DependencyMissing
            &&& running || !found(receiver) ==> e == start_obstacle(
                platform,
                running,
                receiver,
                None,
            )
        }),
{
}

/// A receiver that ends by itself is a crash once, and none after it was stopped.
pub proof fn receivers_crash_once(r: DecoderRace)
    ensures
        r.receiver_verdict() is Crash <==> r.running,
        !(r.receiver_verdict() is Crash) ==> r.receiver_verdict() is Nothing,
        r.ended().receiver_verdict() is Nothing,
        r.ended().winner == r.winner,
{
}

/// A receiver that is there is used; otherwise it is said which one is not, or why none is known.
pub proof fn receivers_that_exist_are_used(path: Seq<char>, why: Seq<char>)
    ensures
        usable(Ok((path, true))) == Ok::<Seq<char>, Seq<char>>(path),
        usable(Ok((path, false))) matches Err(e) && text::occurs(e, path),
        usable(Err(why)) == Err::<Seq<char>, Seq<char>>(why),
{
    let a = "未找到 UxPlay 可执行文件 "@;
    let b = "。发布前需按 AGENTS.md 放置经过审计和校验的构建物并记录版本/SHA-256/许可证。"@;
    let e = a + path + b;
    let k = a.len() as int;
    assert(e.subrange(k, k + path.len()) =~= path);
    assert(text::stands_at(e, path, k));
}

/// Every Internet address in decimal is an address, with or without a port.
pub proof fn internet_addresses_are_known(a: u8, b: u8, c: u8, d: u8, port: u16)
    ensures
        ({
            let s = text::dec(a as nat) + seq!['.'] + (text::dec(b as nat) + seq!['.'] + (text::dec(
                c as nat,
            ) + seq!['.'] + text::dec(d as nat)));
            is_address(s) && is_address(s + seq![':'] + text::dec(port as nat))
        }),
{
    let f = |x: char| x == '.';
    let g = |x: char| x == ':';
    let w = text::dec(a as nat);
    let x = text::dec(b as nat);
    let y = text::dec(c as nat);
    let z = text::dec(d as nat);
    let p = text::dec(port as nat);
    lemma_octet(a);
    lemma_octet(b);
    lemma_octet(c);
    lemma_octet(d);
    text::decimal_numbers_read_back(port as nat, u16::MAX as nat);
    assert forall|i: int| 0 <= i < p.len() implies !g(#[trigger] p[i]) by {
        assert(text::is_digit(p[i]));
    }
    let s3 = y + seq!['.'] + z;
    let s2 = x + seq!['.'] + s3;
    let s = w + seq!['.'] + s2;
    text::pieces_are_split_off(z, '.', z, f);
    text::pieces_are_split_off(y, '.', z, f);
    text::pieces_are_split_off(x, '.', s3, f);
    text::pieces_are_split_off(w, '.', s2, f);
    let parts = text::split_by(s, f);
    assert(parts =~= seq![w, x, y, z]);
    assert(is_ipv4(s));
    assert forall|i: int| 0 <= i < s.len() implies !g(#[trigger] s[i]) by {
        let n = w.len() as int;
        let m = n + 1 + x.len();
        let k = m + 1 + y.len();
        if i < n {
            assert(s[i] == w[i] && text::is_digit(w[i]));
        } else if n < i < m {
            assert(s[i] == x[i - n - 1] && text::is_digit(x[i - n - 1]));
        } else if m < i < k {
            assert(s[i] == y[i - m - 1] && text::is_digit(y[i - m - 1]));
        } else if k < i {
            assert(s[i] == z[i - k - 1] && text::is_digit(z[i - k - 1]));
        }
    }
    text::pieces_are_split_off(p, ':', p, g);
    text::pieces_are_split_off(s, ':', p, g);
    assert(text::split_by(s + seq![':'] + p, g) =~= seq![s, p]);
}

proof fn lemma_octet(n: u8)
    ensures
        is_octet(text::dec(n as nat)),
        forall|i: int|
            0 <= i < text::dec(n as nat).len() ==> text::is_digit(#[trigger] text::dec(n as nat)[i]),
        forall|i: int| 0 <= i < text::dec(n as nat).len() ==> #[trigger] text::dec(n as nat)[i] != '.',
{
    text::decimal_numbers_read_back(n as nat, 255);
    reveal_with_fuel(text::dec, 4);
}

/// Every hardware address of six pairs of hexadecimal digits is an address.
pub proof fn hardware_addresses_are_known(
    a: Seq<char>,
    b: Seq<char>,
    c: Seq<char>,
    d: Seq<char>,
    e: Seq<char>,
    h: Seq<char>,
)
    requires
        hex_pair(a) && hex_pair(b) && hex_pair(c) && hex_pair(d) && hex_pair(e) && hex_pair(h),
    ensures
        is_address(
            a + seq![':'] + (b + seq![':'] + (c + seq![':'] + (d + seq![':'] + (e + seq![':'] + h)))),
        ),
{
    let g = |x: char| x == ':';
    let s5 = e + seq![':'] + h;
    let s4 = d + seq![':'] + s5;
    let s3 = c + seq![':'] + s4;
    let s2 = b + seq![':'] + s3;
    text::pieces_are_split_off(h, ':', h, g);
    text::pieces_are_split_off(e, ':', h, g);
    text::pieces_are_split_off(d, ':', s5, g);
    text::pieces_are_split_off(c, ':', s4, g);
    text::pieces_are_split_off(b, ':', s3, g);
    text::pieces_are_split_off(a, ':', s2, g);
    assert(text::split_by(a + seq![':'] + s2, g) =~= seq![a, b, c, d, e, h]);
}

/// Whether a text is two hexadecimal digits.
pub open spec fn hex_pair(s: Seq<char>) -> bool {
    s.len() == 2 && text::is_hex(s[0]) && text::is_hex(s[1])
}

/// A word without a colon and without a dot is kept as it is, and so is the rest of a word of
/// which an address is taken out.
pub proof fn other_words_are_kept(token: Seq<char>)
    ensures
        !token.contains(':') && !token.contains('.') ==> redacted(token) == token,
        !is_address(core_of(token)) ==> redacted(token) == token,
        is_address(core_of(token)) ==> text::occurs(redacted(token), "[地址已脱敏]"@),
{
    let a = core_start(token);
    let f = |c: char| !text::is_punctuation(c);
    text::lemma_find_from(token, f, 0);
    lemma_core_bounds(token, a, token.len() as int);
    let b = core_end(token, a, token.len() as int);
    let mark = "[地址已脱敏]"@;
    if is_address(core_of(token)) {
        let r = token.take(a) + mark + token.skip(b);
        assert(r.subrange(a, a + mark.len()) =~= mark);
        assert(text::stands_at(r, mark, a));
    }
    if !token.contains(':') && !token.contains('.') {
        let core = core_of(token);
        let g = |x: char| x == ':';
        let h = |x: char| x == '.';
        assert forall|i: int| 0 <= i < core.len() implies !g(#[trigger] core[i]) && !h(core[i]) by {
            assert(core[i] == token[a + i]);
            assert(token.contains(token[a + i]));
        }
        text::pieces_are_split_off(core, ':', core, g);
        assert forall|i: int| 0 <= i < core.len() implies !h(#[trigger] core[i]) by {}
        text::pieces_are_split_off(core, '.', core, h);
    }
}

/// The stream of a phone goes to both decoders, to the port of each.
pub proof fn streams_go_to_both_ports(h264_port: u16, h265_port: u16)
    ensures
        ({
            let s = rtp_pipeline(h264_port, h265_port);
            let end = " phonebridge_rtp. ! queue ! udpsink host=127.0.0.1 port="@ + text::dec(
                h265_port as nat,
            );
            text::ends_in(s, end) && text::ends_in(s, text::dec(h264_port as nat) + end)
        }),
{
    let s = rtp_pipeline(h264_port, h265_port);
    let end = " phonebridge_rtp. ! queue ! udpsink host=127.0.0.1 port="@ + text::dec(
        h265_port as nat,
    );
    let longer = text::dec(h264_port as nat) + end;
    assert(s.subrange(s.len() - end.len(), s.len() as int) =~= end);
    assert(s.subrange(s.len() - longer.len(), s.len() as int) =~= longer);
}

/// A receiver that hands out its frames itself writes them, scaled to the size of the picture,
/// across before down, to the channel that is kept for them.
pub proof fn frames_go_to_their_channel(service: Seq<char>, port: u16, width: u32, height: u32)
    ensures
        ({
            let all = pipe_words(service, port);
            &&& all[11] == "-vc"@ && all[12] == converter_text(IOS_OUTPUT_WIDTH, IOS_OUTPUT_HEIGHT)
            &&& all[13] == "-vs"@ && "fdsink fd=3"@.is_prefix_of(all[14])
        }),
        text::ends_in(
            converter_text(width, height),
            "width="@ + text::dec(width as nat) + ",height="@ + text::dec(height as nat),
        ),
{
    reveal_strlit("fdsink fd=3");
    reveal_strlit("fdsink fd=3 sync=false");
    reveal_strlit("width=");
    reveal_strlit("videoconvert ! video/x-raw,format=RGBA ! videoscale ! video/x-raw,width=");
    let s = converter_text(width, height);
    let end = "width="@ + text::dec(width as nat) + ",height="@ + text::dec(height as nat);
    let head = "videoconvert ! video/x-raw,format=RGBA ! videoscale ! video/x-raw,width="@;
    assert(head.skip(head.len() - 6) =~= "width="@);
    assert(s.subrange(s.len() - end.len(), s.len() as int) =~= end);
}

} // verus!
