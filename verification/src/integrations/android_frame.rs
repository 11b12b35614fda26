//! Mirroring Android: a server on the device sends H.264 through a tunnel of the debug bridge,
//! a decoder on the host turns it into frames, and input goes back through a second connection
//! in the control protocol of the server.
use vstd::prelude::*;

use crate::integrations;
use crate::integrations::adb;
use crate::integrations::adb::ToolCandidate;
use crate::integrations::frame_bridge::{FrameSink, SinkCall};
use crate::integrations::{path_below, AdapterError, HostPlatform};
use crate::seqs;
use crate::text;

verus! {

pub const SCRCPY_SERVER_VERSION: &'static str = "4.0";

/// Where the server is put on the device.
pub const SCRCPY_REMOTE_SERVER: &'static str = "/data/local/tmp/phonebridge-scrcpy-server.jar";

/// The longest side of a frame.
pub const MAX_FRAME_DIMENSION: u32 = 1080;

pub const SERVER_MAX_FPS: u32 = 30;

/// How long the connections of the server are waited for, in seconds.
pub const CONNECTION_TIMEOUT_SECONDS: u64 = 10;

/// The pointer that stands for a finger.
pub const SCRCPY_POINTER_ID_GENERIC_FINGER: u64 = 0xffff_ffff_ffff_fffe;

/// The version of the server that the host expects.
pub fn scrcpy_server_version() -> (r: &'static str)
    ensures
        r@ == "4.0"@,
{
    SCRCPY_SERVER_VERSION
}

// ---------------------------------------------------------------------------
// Locating the server
// ---------------------------------------------------------------------------

/// The places of the server in the order in which they are tried: the configured one, those of
/// the application, those of common installations, and those near the `scrcpy` program, whose
/// directory is `scrcpy_dir`.
pub open spec fn server_places(
    platform: HostPlatform,
    configured: Option<Seq<char>>,
    resources: Seq<char>,
    scrcpy_dir: Option<Seq<char>>,
) -> Seq<Seq<char>> {
    (match configured {
        Some(p) => seq![text::trimmed(p)],
        None => Seq::empty(),
    }) + seq![
        integrations::below(platform, resources, "binaries/scrcpy-server"@),
        integrations::below(platform, resources, "binaries/scrcpy-server.jar"@),
        integrations::below(platform, resources, "scrcpy-server"@),
        integrations::below(platform, resources, "scrcpy-server.jar"@),
        "/opt/homebrew/opt/scrcpy/share/scrcpy/scrcpy-server"@,
        "/opt/homebrew/share/scrcpy/scrcpy-server"@,
        "/usr/local/opt/scrcpy/share/scrcpy/scrcpy-server"@,
        "/usr/share/scrcpy/scrcpy-server"@,
    ] + (match scrcpy_dir {
        Some(d) => seq![
            integrations::below(platform, d, "scrcpy-server"@),
            integrations::below(platform, d, "../share/scrcpy/scrcpy-server"@),
            integrations::below(platform, d, "../../share/scrcpy/scrcpy-server"@),
        ],
        None => Seq::empty(),
    })
}

/// Chooses where the decoder is, if it is anywhere.
pub fn locate_ffmpeg(
    candidates: &Vec<ToolCandidate>,
    present: &Vec<bool>,
    shell: Option<String>,
) -> (r: Option<String>)
    requires
        present@.len() == candidates@.len(),
    ensures
        text::opt_text(r) == adb::tool_at(candidates@, present@, shell),
{
    match adb::resolve_tool(candidates, present, shell, "ffmpeg", "PHONEBRIDGE_FFMPEG_PATH") {
        Ok(path) => Some(path),
        Err(_) => None,
    }
}

/// The places of the server; the first one that is a file is used.
pub fn scrcpy_server_candidates(
    platform: HostPlatform,
    configured: &Option<String>,
    resources: &str,
    scrcpy_dir: &Option<String>,
) -> (r: Vec<String>)
    ensures
        text::texts(r@) == server_places(
            platform,
            text::opt_text(*configured),
            resources@,
            text::opt_text(*scrcpy_dir),
        ),
{
    let mut out: Vec<String> = Vec::new();
    match configured {
        Some(p) => {
            let t = text::trim(p.as_str());
            adb::push_text(&mut out, t.as_str());
        },
        None => {},
    }
    let a = path_below(platform, resources, "binaries/scrcpy-server");
    let b = path_below(platform, resources, "binaries/scrcpy-server.jar");
    let c = path_below(platform, resources, "scrcpy-server");
    let d = path_below(platform, resources, "scrcpy-server.jar");
    adb::push_text(&mut out, a.as_str());
    adb::push_text(&mut out, b.as_str());
    adb::push_text(&mut out, c.as_str());
    adb::push_text(&mut out, d.as_str());
    adb::push_text(&mut out, "/opt/homebrew/opt/scrcpy/share/scrcpy/scrcpy-server");
    adb::push_text(&mut out, "/opt/homebrew/share/scrcpy/scrcpy-server");
    adb::push_text(&mut out, "/usr/local/opt/scrcpy/share/scrcpy/scrcpy-server");
    adb::push_text(&mut out, "/usr/share/scrcpy/scrcpy-server");
    match scrcpy_dir {
        Some(dir) => {
            let x = path_below(platform, dir.as_str(), "scrcpy-server");
            let y = path_below(platform, dir.as_str(), "../share/scrcpy/scrcpy-server");
            let z = path_below(platform, dir.as_str(), "../../share/scrcpy/scrcpy-server");
            adb::push_text(&mut out, x.as_str());
            adb::push_text(&mut out, y.as_str());
            adb::push_text(&mut out, z.as_str());
        },
        None => {},
    }
    assert(text::texts(out@) =~= server_places(
        platform,
        text::opt_text(*configured),
        resources@,
        text::opt_text(*scrcpy_dir),
    ));
    out
}

/// The first of the paths that is a file; `is_file` says it of each.
pub fn first_file(paths: &Vec<String>, is_file: &Vec<bool>) -> (r: Option<String>)
    requires
        paths@.len() == is_file@.len(),
    ensures
        ({
            let i = seqs::first_from(is_file@, |b: bool| b, 0);
            text::opt_text(r) == (if 0 <= i < is_file@.len() {
                Some(paths@[i]@)
            } else {
                None
            })
        }),
{
    let ghost f = |b: bool| b;
    let mut i: usize = 0;
    while i < is_file.len()
        invariant
            i <= is_file@.len(),
            paths@.len() == is_file@.len(),
            f == (|b: bool| b),
            forall|j: int| 0 <= j < i ==> !f(#[trigger] is_file@[j]),
        decreases is_file@.len() - i,
    {
        if is_file[i] {
            proof {
                seqs::lemma_first_from_is(is_file@, f, 0, i as int);
            }
            return Some(text::own(paths[i].as_str()));
        }
        i = i + 1;
    }
    proof {
        seqs::lemma_first_from_is(is_file@, f, 0, i as int);
    }
    None
}

// ---------------------------------------------------------------------------
// Connections and sizes
// ---------------------------------------------------------------------------

/// Numbers the connections to the server.
pub struct ScidCounter {
    pub next: u32,
}

/// The number of a connection: 31 bits, not zero.
pub open spec fn scid_value(n: u32) -> nat {
    let v = (n % 0x8000_0000) as nat;
    if v == 0 {
        1
    } else {
        v
    }
}

impl ScidCounter {
    pub fn new() -> (r: Self)
        ensures
            r.next == 0x1357_9bdf,
    {
        ScidCounter { next: 0x1357_9bdf }
    }

    /// The next number, as eight hexadecimal digits.
    pub fn next_scid(&mut self) -> (r: String)
        ensures
            r@ == text::hex(scid_value(old(self).next), 8, false),
            final(self).next == (if old(self).next == u32::MAX {
                0
            } else {
                (old(self).next + 1) as u32
            }),
    {
        let v: u32 = self.next % 0x8000_0000;
        let v: u32 = if v == 0 {
            1
        } else {
            v
        };
        self.next = if self.next == u32::MAX {
            0
        } else {
            self.next + 1
        };
        text::hex_text(v as u64, 8, false)
    }
}

/// A connection number is eight lower-case hexadecimal digits.
pub proof fn scid_is_eight_hex_digits(n: nat, width: nat)
    ensures
        text::hex(n, width, false).len() == width,
        forall|i: int|
            0 <= i < width ==> text::is_hex(#[trigger] text::hex(n, width, false)[i])
                && !text::is_upper(text::hex(n, width, false)[i]),
    decreases width,
{
    if width > 0 {
        scid_is_eight_hex_digits(n / 16, (width - 1) as nat);
        let rest = text::hex(n / 16, (width - 1) as nat, false);
        assert forall|i: int| 0 <= i < width implies text::is_hex(
            #[trigger] text::hex(n, width, false)[i],
        ) && !text::is_upper(text::hex(n, width, false)[i]) by {
            if i < rest.len() {
                assert(text::is_hex(rest[i]));
            }
        }
    }
}

/// The even number at or below `n`, at least two.
pub open spec fn even_from(n: int) -> int {
    if n < 2 {
        2
    } else {
        n - n % 2
    }
}

pub open spec fn at_least_two(n: u32) -> int {
    if n < 2 {
        2
    } else {
        n as int
    }
}

pub open spec fn larger(a: int, b: int) -> int {
    if a < b {
        b
    } else {
        a
    }
}

/// A side of the frame for a screen whose longest side is `longest`.
pub open spec fn scaled_side(side: int, longest: int) -> int {
    if longest > MAX_FRAME_DIMENSION {
        even_from(side * MAX_FRAME_DIMENSION / longest)
    } else {
        even_from(side)
    }
}

/// The size of the frames of a screen: scaled down so that the longest side fits, with even
/// sides.
pub open spec fn frame_size(width: u32, height: u32) -> (int, int) {
    let w = at_least_two(width);
    let h = at_least_two(height);
    (scaled_side(w, larger(w, h)), scaled_side(h, larger(w, h)))
}

fn even_at_least_two(n: u64) -> (r: u32)
    requires
        n <= u32::MAX,
    ensures
        r == even_from(n as int),
{
    if n < 2 {
        2
    } else {
        (n - n % 2) as u32
    }
}

proof fn lemma_scaled_fits(side: int, longest: int)
    requires
        0 <= side <= longest,
        longest > 0,
    ensures
        0 <= side * MAX_FRAME_DIMENSION / longest <= MAX_FRAME_DIMENSION,
{
    assert(0 <= side * MAX_FRAME_DIMENSION <= longest * MAX_FRAME_DIMENSION) by (nonlinear_arith)
        requires
            0 <= side <= longest,
    ;
    vstd::arithmetic::div_mod::lemma_div_is_ordered(
        side * MAX_FRAME_DIMENSION,
        longest * MAX_FRAME_DIMENSION,
        longest,
    );
    vstd::arithmetic::div_mod::lemma_div_multiples_vanish(MAX_FRAME_DIMENSION as int, longest);
    assert(longest * MAX_FRAME_DIMENSION == MAX_FRAME_DIMENSION * longest) by (nonlinear_arith);
    vstd::arithmetic::div_mod::lemma_div_pos_is_pos(side * MAX_FRAME_DIMENSION, longest);
}

/// The size of the frames of a screen.
pub fn scaled_dimensions(width: u32, height: u32) -> (r: (u32, u32))
    ensures
        (r.0 as int, r.1 as int) == frame_size(width, height),
{
    let w: u64 = if width < 2 {
        2
    } else {
        width as u64
    };
    let h: u64 = if height < 2 {
        2
    } else {
        height as u64
    };
    let longest: u64 = if w < h {
        h
    } else {
        w
    };
    if longest > MAX_FRAME_DIMENSION as u64 {
        proof {
            lemma_scaled_fits(w as int, longest as int);
            lemma_scaled_fits(h as int, longest as int);
            assert(w * 1080 <= u64::MAX && h * 1080 <= u64::MAX);
        }
        (even_at_least_two(w * 1080 / longest), even_at_least_two(h * 1080 / longest))
    } else {
        (even_at_least_two(w), even_at_least_two(h))
    }
}

/// Both sides of a frame are even and between two and the longest side allowed.
pub proof fn frames_are_even_and_bounded(width: u32, height: u32)
    ensures
        ({
            let (w, h) = frame_size(width, height);
            &&& w % 2 == 0 && h % 2 == 0
            &&& 2 <= w <= MAX_FRAME_DIMENSION
            &&& 2 <= h <= MAX_FRAME_DIMENSION
        }),
{
    let w = at_least_two(width);
    let h = at_least_two(height);
    lemma_scaled_fits(w, larger(w, h));
    lemma_scaled_fits(h, larger(w, h));
}

// ---------------------------------------------------------------------------
// Calls of the debug bridge
// ---------------------------------------------------------------------------

fn call(serial: &str, rest: &[&str]) -> (r: Vec<String>)
    ensures
        text::texts(r@) == seq!["-s"@, serial@] + adb::str_texts(rest@),
{
    let mut args: Vec<String> = Vec::new();
    adb::push_text(&mut args, "-s");
    adb::push_text(&mut args, serial);
    let ghost head = text::texts(args@);
    assert(head =~= seq!["-s"@, serial@]);
    let mut i: usize = 0;
    while i < rest.len()
        invariant
            i <= rest@.len(),
            text::texts(args@) =~= head + adb::str_texts(rest@).take(i as int),
        decreases rest@.len() - i,
    {
        adb::push_text(&mut args, rest[i]);
        i = i + 1;
    }
    assert(adb::str_texts(rest@).take(i as int) =~= adb::str_texts(rest@));
    args
}

/// The name of the socket of a connection on the device.
pub open spec fn socket_text(scid: Seq<char>) -> Seq<char> {
    "scrcpy_"@ + scid
}

/// The name of the socket of a connection on the device.
pub fn socket_name(scid: &str) -> (r: String)
    ensures
        r@ == socket_text(scid@),
{
    text::cat2("scrcpy_", scid)
}

/// Puts the server on the device.
pub fn push_arguments(serial: &str, server: &str) -> (r: Vec<String>)
    ensures
        text::texts(r@) == seq!["-s"@, serial@, "push"@, server@, SCRCPY_REMOTE_SERVER@],
{
    let rest = ["push", server, SCRCPY_REMOTE_SERVER];
    let r = call(serial, &rest);
    assert(text::texts(r@) =~= seq!["-s"@, serial@, "push"@, server@, SCRCPY_REMOTE_SERVER@]);
    r
}

/// The arguments of a tunnel from the device to a port of the host.
pub open spec fn reverse_words(serial: Seq<char>, socket: Seq<char>, port: u16) -> Seq<Seq<char>> {
    seq![
        "-s"@,
        serial,
        "reverse"@,
        "localabstract:"@ + socket,
        "tcp:"@ + text::dec(port as nat),
    ]
}

/// The arguments of a tunnel from a port of the host to the device.
pub open spec fn forward_words(serial: Seq<char>, socket: Seq<char>, port: u16) -> Seq<Seq<char>> {
    seq![
        "-s"@,
        serial,
        "forward"@,
        "tcp:"@ + text::dec(port as nat),
        "localabstract:"@ + socket,
    ]
}

/// The arguments that take a tunnel down again.
pub open spec fn removal_words(
    serial: Seq<char>,
    socket: Seq<char>,
    port: u16,
    forward: bool,
) -> Seq<Seq<char>> {
    if forward {
        seq!["-s"@, serial, "forward"@, "--remove"@, "tcp:"@ + text::dec(port as nat)]
    } else {
        seq!["-s"@, serial, "reverse"@, "--remove"@, "localabstract:"@ + socket]
    }
}

/// A tunnel from the device to a port of the host.
pub fn reverse_arguments(serial: &str, socket: &str, port: u16) -> (r: Vec<String>)
    ensures
        text::texts(r@) == reverse_words(serial@, socket@, port),
{
    let a = text::cat2("localabstract:", socket);
    let b = text::cat2("tcp:", text::decimal(port as u64).as_str());
    let rest = ["reverse", a.as_str(), b.as_str()];
    let r = call(serial, &rest);
    assert(text::texts(r@) =~= seq!["-s"@, serial@, "reverse"@, a@, b@]);
    r
}

/// A tunnel from a port of the host to the device.
pub fn forward_arguments(serial: &str, socket: &str, port: u16) -> (r: Vec<String>)
    ensures
        text::texts(r@) == forward_words(serial@, socket@, port),
{
    let a = text::cat2("localabstract:", socket);
    let b = text::cat2("tcp:", text::decimal(port as u64).as_str());
    let rest = ["forward", b.as_str(), a.as_str()];
    let r = call(serial, &rest);
    assert(text::texts(r@) =~= seq!["-s"@, serial@, "forward"@, b@, a@]);
    r
}

/// Takes the tunnel down again.
pub fn remove_tunnel_arguments(serial: &str, socket: &str, port: u16, forward: bool) -> (r: Vec<
    String,
>)
    ensures
        text::texts(r@) == removal_words(serial@, socket@, port, forward),
{
    if forward {
        let b = text::cat2("tcp:", text::decimal(port as u64).as_str());
        let rest = ["forward", "--remove", b.as_str()];
        let r = call(serial, &rest);
        assert(text::texts(r@) =~= seq!["-s"@, serial@, "forward"@, "--remove"@, b@]);
        r
    } else {
        let a = text::cat2("localabstract:", socket);
        let rest = ["reverse", "--remove", a.as_str()];
        let r = call(serial, &rest);
        assert(text::texts(r@) =~= seq!["-s"@, serial@, "reverse"@, "--remove"@, a@]);
        r
    }
}

/// Removes the server from the device.
pub fn remove_server_arguments(serial: &str) -> (r: Vec<String>)
    ensures
        text::texts(r@) == seq![
            "-s"@,
            serial@,
            "shell"@,
            "rm"@,
            "-f"@,
            SCRCPY_REMOTE_SERVER@,
        ],
{
    let rest = ["shell", "rm", "-f", SCRCPY_REMOTE_SERVER];
    let r = call(serial, &rest);
    assert(text::texts(r@) =~= seq![
        "-s"@,
        serial@,
        "shell"@,
        "rm"@,
        "-f"@,
        SCRCPY_REMOTE_SERVER@,
    ]);
    r
}

pub open spec fn bool_text(b: bool) -> Seq<char> {
    if b {
        "true"@
    } else {
        "false"@
    }
}

/// The arguments that run the server on the device.
pub open spec fn server_words(serial: Seq<char>, scid: Seq<char>, forward: bool) -> Seq<Seq<char>> {
    seq![
        "-s"@,
        serial,
        "shell"@,
        "CLASSPATH="@ + SCRCPY_REMOTE_SERVER@,
        "app_process"@,
        "/"@,
        "com.genymobile.scrcpy.Server"@,
        SCRCPY_SERVER_VERSION@,
        "scid="@ + scid,
        "tunnel_forward="@ + bool_text(forward),
        "audio=false"@,
        "control=true"@,
        "cleanup=true"@,
        "raw_stream=true"@,
        "max_size="@ + text::dec(MAX_FRAME_DIMENSION as nat),
        "max_fps="@ + text::dec(SERVER_MAX_FPS as nat),
    ]
}

/// The arguments that run the server on the device: no sound, with control, raw H.264.
pub fn server_arguments(serial: &str, scid: &str, forward: bool) -> (r: Vec<String>)
    ensures
        text::texts(r@) == server_words(serial@, scid@, forward),
{
    let class_path = text::cat2("CLASSPATH=", SCRCPY_REMOTE_SERVER);
    let id = text::cat2("scid=", scid);
    let tunnel = text::cat2(
        "tunnel_forward=",
        if forward {
            "true"
        } else {
            "false"
        },
    );
    let size = text::cat2("max_size=", text::decimal(MAX_FRAME_DIMENSION as u64).as_str());
    let fps = text::cat2("max_fps=", text::decimal(SERVER_MAX_FPS as u64).as_str());
    let rest = [
        "shell",
        class_path.as_str(),
        "app_process",
        "/",
        "com.genymobile.scrcpy.Server",
        SCRCPY_SERVER_VERSION,
        id.as_str(),
        tunnel.as_str(),
        "audio=false",
        "control=true",
        "cleanup=true",
        "raw_stream=true",
        size.as_str(),
        fps.as_str(),
    ];
    let r = call(serial, &rest);
    assert(text::texts(r@) =~= server_words(serial@, scid@, forward));
    r
}

/// The arguments of the decoder for frames of the given size.
pub open spec fn decoder_words(width: u32, height: u32) -> Seq<Seq<char>> {
    seq![
        "-hide_banner"@,
        "-loglevel"@,
        "error"@,
        "-flags"@,
        "low_delay"@,
        "-probesize"@,
        "32"@,
        "-analyzeduration"@,
        "0"@,
        "-f"@,
        "h264"@,
        "-i"@,
        "pipe:0"@,
        "-an"@,
        "-sn"@,
        "-dn"@,
        "-f"@,
        "rawvideo"@,
        "-pix_fmt"@,
        "rgba"@,
        "-vf"@,
        "scale="@ + text::dec(width as nat) + ":"@ + text::dec(height as nat) + ":flags=fast_bilinear"@,
        "-flush_packets"@,
        "1"@,
        "pipe:1"@,
    ]
}

/// The arguments of the decoder for frames of the given size; it looks at as little of the
/// stream as it can before it begins.
pub fn decoder_arguments(width: u32, height: u32) -> (r: Vec<String>)
    ensures
        text::texts(r@) == decoder_words(width, height),
{
    let filter = text::cat5(
        "scale=",
        text::decimal(width as u64).as_str(),
        ":",
        text::decimal(height as u64).as_str(),
        ":flags=fast_bilinear",
    );
    text::own_all(
        &[
            "-hide_banner",
            "-loglevel",
            "error",
            "-flags",
            "low_delay",
            "-probesize",
            "32",
            "-analyzeduration",
            "0",
            "-f",
            "h264",
            "-i",
            "pipe:0",
            "-an",
            "-sn",
            "-dn",
            "-f",
            "rawvideo",
            "-pix_fmt",
            "rgba",
            "-vf",
            filter.as_str(),
            "-flush_packets",
            "1",
            "pipe:1",
        ],
    )
}

/// What a call of the debug bridge that failed is reported with.
pub open spec fn call_error(
    operation: Seq<char>,
    run: Result<(bool, Seq<char>), Seq<char>>,
    not_run: Seq<char>,
) -> Option<AdapterError<Seq<char>>> {
    match run {
        Err(why) => Some(AdapterError::Failed(not_run + why)),
        Ok((true, _)) => None,
        Ok((false, status)) => Some(
            AdapterError::Failed(operation + "失败（进程状态 "@ + status + "）"@),
        ),
    }
}

/// The contents of how a call ended.
pub open spec fn run_content(run: Result<(bool, String), String>) -> Result<
    (bool, Seq<char>),
    Seq<char>,
> {
    match run {
        Ok((ok, status)) => Ok((ok, status@)),
        Err(why) => Err(why@),
    }
}

fn call_outcome(operation: &str, run: Result<(bool, String), String>, not_run: &str) -> (r: Result<
    (),
    AdapterError,
>)
    ensures
        match r {
            Ok(()) => call_error(operation@, run_content(run), not_run@) is None,
            Err(e) => call_error(operation@, run_content(run), not_run@) == Some(e@),
        },
{
    match run {
        Err(why) => Err(AdapterError::Failed(text::cat2(not_run, why.as_str()))),
        Ok((ok, status)) => if ok {
            Ok(())
        } else {
            Err(
                AdapterError::Failed(
                    text::cat4(operation, "失败（进程状态 ", status.as_str(), "）"),
                ),
            )
        },
    }
}

/// What came of putting the server on the device: whether the call succeeded and its status,
/// or why it could not be made.
pub fn push_outcome(run: Result<(bool, String), String>) -> (r: Result<(), AdapterError>)
    ensures
        match r {
            Ok(()) => call_error(
                "推送 scrcpy-server"@,
                run_content(run),
                "执行 adb push scrcpy-server 失败："@,
            ) is None,
            Err(e) => call_error(
                "推送 scrcpy-server"@,
                run_content(run),
                "执行 adb push scrcpy-server 失败："@,
            ) == Some(e@),
        },
{
    call_outcome("推送 scrcpy-server", run, "执行 adb push scrcpy-server 失败：")
}

/// What came of a tunnel from the device.
pub fn reverse_outcome(run: Result<(bool, String), String>) -> (r: Result<(), AdapterError>)
    ensures
        match r {
            Ok(()) => call_error(
                "建立 adb reverse"@,
                run_content(run),
                "建立 adb reverse 失败："@,
            ) is None,
            Err(e) => call_error(
                "建立 adb reverse"@,
                run_content(run),
                "建立 adb reverse 失败："@,
            ) == Some(e@),
        },
{
    call_outcome("建立 adb reverse", run, "建立 adb reverse 失败：")
}

/// What came of a tunnel to the device.
pub fn forward_outcome(run: Result<(bool, String), String>) -> (r: Result<(), AdapterError>)
    ensures
        match r {
            Ok(()) => call_error(
                "建立 adb forward"@,
                run_content(run),
                "建立 adb forward 失败："@,
            ) is None,
            Err(e) => call_error(
                "建立 adb forward"@,
                run_content(run),
                "建立 adb forward 失败："@,
            ) == Some(e@),
        },
{
    call_outcome("建立 adb forward", run, "建立 adb forward 失败：")
}

/// What is reported when both tunnels failed.
pub fn tunnels_failed(reverse: &AdapterError, forward: &AdapterError) -> (r: AdapterError)
    ensures
        r@ == AdapterError::Failed(
            "建立 adb reverse 失败（"@ + reverse@.message_text()
                + "）；adb forward 回退失败（"@ + forward@.message_text() + "）"@,
        ),
{
    AdapterError::Failed(
        text::cat5(
            "建立 adb reverse 失败（",
            reverse.message().as_str(),
            "）；adb forward 回退失败（",
            forward.message().as_str(),
            "）",
        ),
    )
}

// ---------------------------------------------------------------------------
// Starting
// ---------------------------------------------------------------------------

/// What has to be done next to start mirroring.
#[derive(Debug, Clone, Copy, PartialEq, Eq, Structural)]
pub enum ScreenAction {
    /// Open a local port for the tunnel.
    Listen,
    PushServer,
    SetupReverse,
    /// Take down what is left of the tunnel from the device, close the local port, and set up
    /// one to the device.
    SetupForward,
    StartServer,
    StartDecoder,
    Started,
    /// Give up.
    Fail(ScreenFailure),
}

/// At which step the start failed.
#[derive(Debug, Clone, Copy, PartialEq, Eq, Structural)]
pub enum ScreenFailure {
    Listen,
    PushServer,
    Tunnel,
    StartServer,
    StartDecoder,
}

/// The start of mirroring, as far as it has come.
#[derive(Debug, Clone, Copy, PartialEq, Eq, Structural)]
pub struct ScreenStart {
    pub action: ScreenAction,
    /// Whether the tunnel goes to the device.
    pub tunnel_forward: bool,
}

impl ScreenStart {
    pub fn begin() -> (r: Self)
        ensures
            r == (ScreenStart { action: ScreenAction::Listen, tunnel_forward: false }),
    {
        ScreenStart { action: ScreenAction::Listen, tunnel_forward: false }
    }

    /// The start after its action succeeded or failed: a tunnel from the device is tried
    /// first, one to the device where that fails.
    pub open spec fn next(self, ok: bool) -> ScreenStart {
        match self.action {
            ScreenAction::Listen => ScreenStart {
                action: if ok {
                    ScreenAction::PushServer
                } else {
                    ScreenAction::Fail(ScreenFailure::Listen)
                },
                ..self
            },
            ScreenAction::PushServer => ScreenStart {
                action: if ok {
                    ScreenAction::SetupReverse
                } else {
                    ScreenAction::Fail(ScreenFailure::PushServer)
                },
                ..self
            },
            ScreenAction::SetupReverse => ScreenStart {
                action: if ok {
                    ScreenAction::StartServer
                } else {
                    ScreenAction::SetupForward
                },
                ..self
            },
            ScreenAction::SetupForward => if ok {
                ScreenStart { action: ScreenAction::StartServer, tunnel_forward: true }
            } else {
                ScreenStart { action: ScreenAction::Fail(ScreenFailure::Tunnel), ..self }
            },
            ScreenAction::StartServer => ScreenStart {
                action: if ok {
                    ScreenAction::StartDecoder
                } else {
                    ScreenAction::Fail(ScreenFailure::StartServer)
                },
                ..self
            },
            ScreenAction::StartDecoder => ScreenStart {
                action: if ok {
                    ScreenAction::Started
                } else {
                    ScreenAction::Fail(ScreenFailure::StartDecoder)
                },
                ..self
            },
            ScreenAction::Started | ScreenAction::Fail(_) => self,
        }
    }

    /// Takes whether the action succeeded and says what to do next.
    pub fn advance(&mut self, ok: bool)
        ensures
            *final(self) == old(self).next(ok),
    {
        match self.action {
            ScreenAction::Listen => {
                self.action = if ok {
                    ScreenAction::PushServer
                } else {
                    ScreenAction::Fail(ScreenFailure::Listen)
                };
            },
            ScreenAction::PushServer => {
                self.action = if ok {
                    ScreenAction::SetupReverse
                } else {
                    ScreenAction::Fail(ScreenFailure::PushServer)
                };
            },
            ScreenAction::SetupReverse => {
                self.action = if ok {
                    ScreenAction::StartServer
                } else {
                    ScreenAction::SetupForward
                };
            },
            ScreenAction::SetupForward => {
                if ok {
                    self.tunnel_forward = true;
                    self.action = ScreenAction::StartServer;
                } else {
                    self.action = ScreenAction::Fail(ScreenFailure::Tunnel);
                }
            },
            ScreenAction::StartServer => {
                self.action = if ok {
                    ScreenAction::StartDecoder
                } else {
                    ScreenAction::Fail(ScreenFailure::StartServer)
                };
            },
            ScreenAction::StartDecoder => {
                self.action = if ok {
                    ScreenAction::Started
                } else {
                    ScreenAction::Fail(ScreenFailure::StartDecoder)
                };
            },
            ScreenAction::Started | ScreenAction::Fail(_) => {},
        }
    }
}

/// Whether a failed start has touched the device.
pub open spec fn cleans_up(failure: ScreenFailure) -> bool {
    !(failure is Listen)
}

/// Whether a failed start leaves a server process behind.
pub open spec fn stops_server(failure: ScreenFailure) -> bool {
    failure is StartDecoder
}

/// Whether a failed start takes the tunnel down and removes the server from the device: always
/// once the device has been touched.
pub fn needs_cleanup(failure: ScreenFailure) -> (r: bool)
    ensures
        r == cleans_up(failure),
{
    !matches!(failure, ScreenFailure::Listen)
}

/// Whether a failed start stops the server process.
pub fn needs_server_stop(failure: ScreenFailure) -> (r: bool)
    ensures
        r == stops_server(failure),
{
    matches!(failure, ScreenFailure::StartDecoder)
}

/// A start has a tunnel to the device only after one from the device has failed.
pub open spec fn tunnel_known(s: ScreenStart) -> bool {
    s.tunnel_forward ==> (s.action is StartServer || s.action is StartDecoder || s.action is Started
        || s.action == ScreenAction::Fail(ScreenFailure::StartServer) || s.action
        == ScreenAction::Fail(ScreenFailure::StartDecoder))
}

/// The direction of the tunnel is settled before the server is started, and stays.
pub proof fn tunnel_stays(s: ScreenStart, ok: bool)
    requires
        tunnel_known(s),
    ensures
        tunnel_known(s.next(ok)),
        s.tunnel_forward ==> s.next(ok).tunnel_forward,
        s.next(ok).tunnel_forward && !s.tunnel_forward ==> s.action is SetupForward && ok,
{
}

/// What stops the start of mirroring before anything is done; nothing where it may start.
pub open spec fn start_obstacle(
    running: bool,
    ffmpeg_found: bool,
    server_found: bool,
    adb: Seq<char>,
    adb_exists: bool,
) -> Option<AdapterError<Seq<char>>> {
    if running {
        Some(AdapterError::Busy("Android 投屏已在运行"@))
    } else if !ffmpeg_found {
        Some(
            AdapterError::DependencyMissing(
                "未找到 ffmpeg（应用内置或 PATH）。scrcpy H264 解码依赖 ffmpeg，请先运行 pnpm sidecars"@,
            ),
        )
    } else if !server_found {
        Some(
            AdapterError::DependencyMissing(
                "未找到 scrcpy-server（需与客户端版本匹配）。请运行 pnpm sidecars，或设置 PHONEBRIDGE_SCRCPY_SERVER_PATH"@,
            ),
        )
    } else if !adb_exists {
        Some(AdapterError::DependencyMissing("未找到 adb（"@ + adb + "）"@))
    } else {
        None
    }
}

/// What may stop the start of mirroring before anything is done.
pub fn check_start(running: bool, ffmpeg_found: bool, server_found: bool, adb: &str, adb_exists: bool) -> (r:
    Result<(), AdapterError>)
    ensures
        r is Ok <==> start_obstacle(running, ffmpeg_found, server_found, adb@, adb_exists) is None,
        r matches Err(e) ==> start_obstacle(running, ffmpeg_found, server_found, adb@, adb_exists)
            == Some(e@),
{
    if running {
        return Err(AdapterError::Busy(text::own("Android 投屏已在运行")));
    }
    if !ffmpeg_found {
        return Err(
            AdapterError::DependencyMissing(
                text::own(
                    "未找到 ffmpeg（应用内置或 PATH）。scrcpy H264 解码依赖 ffmpeg，请先运行 pnpm sidecars",
                ),
            ),
        );
    }
    if !server_found {
        return Err(
            AdapterError::DependencyMissing(
                text::own(
                    "未找到 scrcpy-server（需与客户端版本匹配）。请运行 pnpm sidecars，或设置 PHONEBRIDGE_SCRCPY_SERVER_PATH",
                ),
            ),
        );
    }
    if !adb_exists {
        return Err(AdapterError::DependencyMissing(text::cat3("未找到 adb（", adb, "）")));
    }
    Ok(())
}

/// The log line of a start that succeeded.
pub fn started_line(forward: bool, width: u32, height: u32) -> (r: String)
    ensures
        r@ == "scrcpy-server "@ + SCRCPY_SERVER_VERSION@ + " 已启动（"@ + (if forward {
            "adb forward"@
        } else {
            "adb reverse"@
        }) + "，video/control 独立通道，输出 "@ + text::dec(width as nat) + "x"@ + text::dec(
            height as nat,
        ) + "）"@,
{
    let mut s = text::cat5(
        "scrcpy-server ",
        SCRCPY_SERVER_VERSION,
        " 已启动（",
        if forward {
            "adb forward"
        } else {
            "adb reverse"
        },
        "，video/control 独立通道，输出 ",
    );
    s.append(text::decimal(width as u64).as_str());
    s.append("x");
    s.append(text::decimal(height as u64).as_str());
    s.append("）");
    s
}

// ---------------------------------------------------------------------------
// What the workers report
// ---------------------------------------------------------------------------

/// What came of waiting for a connection of the server.
pub enum ConnectionOutcome {
    Connected,
    /// The time ran out, or mirroring was stopped.
    Gone,
    Failed(String),
}

/// Why an attempt to connect with the server did not succeed.
#[derive(Debug, Clone, Copy, PartialEq, Eq, Structural)]
pub enum AttemptError {
    /// Nobody has called yet.
    WouldBlock,
    ConnectionRefused,
    ConnectionReset,
    NotFound,
    Other,
}

/// What follows an attempt that did not succeed.
#[derive(Debug, Clone, Copy, PartialEq, Eq, Structural)]
pub enum AttemptVerdict {
    /// Another one follows.
    Retry,
    /// The time ran out.
    GiveUp,
    /// The error is reported.
    Fail,
}

/// What follows an attempt to connect that did not succeed.
pub open spec fn attempt_verdict(
    from_phone: bool,
    kind: AttemptError,
    past_deadline: bool,
) -> AttemptVerdict {
    if from_phone && !(kind is WouldBlock) {
        AttemptVerdict::Fail
    } else if past_deadline {
        AttemptVerdict::GiveUp
    } else if from_phone || kind is ConnectionRefused || kind is ConnectionReset || kind
        is NotFound {
        AttemptVerdict::Retry
    } else {
        AttemptVerdict::Fail
    }
}

/// What follows an attempt to connect that did not succeed. The phone calls back or it does not
/// (`from_phone`), and any other error is reported at once. A call to the phone may come before
/// its server listens; once the time has run out, it is given up whatever the error.
pub fn judge_attempt(from_phone: bool, kind: AttemptError, past_deadline: bool) -> (r:
    AttemptVerdict)
    ensures
        r == attempt_verdict(from_phone, kind, past_deadline),
{
    if from_phone {
        return match kind {
            AttemptError::WouldBlock => if past_deadline {
                AttemptVerdict::GiveUp
            } else {
                AttemptVerdict::Retry
            },
            _ => AttemptVerdict::Fail,
        };
    }
    if past_deadline {
        return AttemptVerdict::GiveUp;
    }
    match kind {
        AttemptError::ConnectionRefused
        | AttemptError::ConnectionReset
        | AttemptError::NotFound => AttemptVerdict::Retry,
        _ => AttemptVerdict::Fail,
    }
}

/// What ends mirroring, as a worker sees it.
pub enum StreamFailure<T = String> {
    /// The video connection did not come.
    VideoTimeout,
    VideoRefused(T),
    VideoNotOpened,
    VideoClosed,
    DecoderClosed,
    VideoUnreadable(T),
    FrameUnreadable(T),
}

impl View for StreamFailure<String> {
    type V = StreamFailure<Seq<char>>;

    open spec fn view(&self) -> StreamFailure<Seq<char>> {
        match self {
            StreamFailure::VideoTimeout => StreamFailure::VideoTimeout,
            StreamFailure::VideoRefused(s) => StreamFailure::VideoRefused(s@),
            StreamFailure::VideoNotOpened => StreamFailure::VideoNotOpened,
            StreamFailure::VideoClosed => StreamFailure::VideoClosed,
            StreamFailure::DecoderClosed => StreamFailure::DecoderClosed,
            StreamFailure::VideoUnreadable(s) => StreamFailure::VideoUnreadable(s@),
            StreamFailure::FrameUnreadable(s) => StreamFailure::FrameUnreadable(s@),
        }
    }
}

impl StreamFailure<Seq<char>> {
    pub open spec fn words(self) -> Seq<char> {
        match self {
            StreamFailure::VideoTimeout => "等待 scrcpy 视频通道超时"@,
            StreamFailure::VideoRefused(s) => "接受 scrcpy 视频通道失败："@ + s,
            StreamFailure::VideoNotOpened => "scrcpy 视频通道未建立"@,
            StreamFailure::VideoClosed => "scrcpy 视频通道已断开"@,
            StreamFailure::DecoderClosed => "ffmpeg H264 输入管道已断开"@,
            StreamFailure::VideoUnreadable(s) => "读取 scrcpy 视频通道失败："@ + s,
            StreamFailure::FrameUnreadable(s) => "读取 ffmpeg RGBA 帧失败："@ + s,
        }
    }
}

impl StreamFailure {
    /// The failure in words.
    pub fn describe(&self) -> (r: String)
        ensures
            r@ == self@.words(),
    {
        match self {
            StreamFailure::VideoTimeout => text::own("等待 scrcpy 视频通道超时"),
            StreamFailure::VideoRefused(s) => text::cat2(
                "接受 scrcpy 视频通道失败：",
                s.as_str(),
            ),
            StreamFailure::VideoNotOpened => text::own("scrcpy 视频通道未建立"),
            StreamFailure::VideoClosed => text::own("scrcpy 视频通道已断开"),
            StreamFailure::DecoderClosed => text::own("ffmpeg H264 输入管道已断开"),
            StreamFailure::VideoUnreadable(s) => text::cat2(
                "读取 scrcpy 视频通道失败：",
                s.as_str(),
            ),
            StreamFailure::FrameUnreadable(s) => text::cat2(
                "读取 ffmpeg RGBA 帧失败：",
                s.as_str(),
            ),
        }
    }
}

/// What comes of waiting for the video connection: its log line, or the failure.
pub fn video_connection(outcome: ConnectionOutcome) -> (r: Result<String, StreamFailure>)
    ensures
        match outcome {
            ConnectionOutcome::Connected => r matches Ok(s) && s@ == "scrcpy 视频 socket 已连接"@,
            ConnectionOutcome::Gone => r matches Err(f) && f@ == StreamFailure::<
                Seq<char>,
            >::VideoTimeout,
            ConnectionOutcome::Failed(why) => r matches Err(f) && f@
                == StreamFailure::VideoRefused(why@),
        },
{
    match outcome {
        ConnectionOutcome::Connected => Ok(text::own("scrcpy 视频 socket 已连接")),
        ConnectionOutcome::Gone => Err(StreamFailure::VideoTimeout),
        ConnectionOutcome::Failed(why) => Err(StreamFailure::VideoRefused(why)),
    }
}

/// What comes of waiting for the control connection: whether control is ready, and the log
/// line. Without it the picture is shown all the same.
pub fn control_connection(outcome: ConnectionOutcome) -> (r: (bool, String))
    ensures
        r.0 == (outcome is Connected),
        r.1@ == (match outcome {
            ConnectionOutcome::Connected => "scrcpy 控制 socket 已连接"@,
            ConnectionOutcome::Gone => "scrcpy 控制通道尚未连接；画面仍可继续显示"@,
            ConnectionOutcome::Failed(why) => "接受 scrcpy 控制通道失败："@ + why@,
        }),
{
    match outcome {
        ConnectionOutcome::Connected => (true, text::own("scrcpy 控制 socket 已连接")),
        ConnectionOutcome::Gone => (
            false,
            text::own("scrcpy 控制通道尚未连接；画面仍可继续显示"),
        ),
        ConnectionOutcome::Failed(why) => (
            false,
            text::cat2("接受 scrcpy 控制通道失败：", why.as_str()),
        ),
    }
}

// ---------------------------------------------------------------------------
// The control protocol
// ---------------------------------------------------------------------------

/// The last `width` bytes of a number, highest first.
pub open spec fn be(n: nat, width: nat) -> Seq<u8>
    decreases width,
{
    if width == 0 {
        Seq::empty()
    } else {
        be(n / 256, (width - 1) as nat).push((n % 256) as u8)
    }
}

pub proof fn lemma_be_length(n: nat, width: nat)
    ensures
        be(n, width).len() == width,
    decreases width,
{
    if width > 0 {
        lemma_be_length(n / 256, (width - 1) as nat);
    }
}

fn push_be(packet: &mut Vec<u8>, n: u64, width: usize)
    ensures
        final(packet)@ == old(packet)@ + be(n as nat, width as nat),
    decreases width,
{
    if width > 0 {
        let ghost start = packet@;
        push_be(packet, n / 256, width - 1);
        packet.push((n % 256) as u8);
        assert(packet@ =~= start + be(n as nat, width as nat));
    } else {
        assert(packet@ =~= packet@ + be(n as nat, 0));
    }
}

/// A key event.
pub open spec fn key_message(action: u8, keycode: u32, repeat: u32, metastate: u32) -> Seq<u8> {
    seq![0u8, action] + be(keycode as nat, 4) + be(repeat as nat, 4) + be(metastate as nat, 4)
}

/// A key event.
pub fn keycode_packet(action: u8, keycode: u32, repeat: u32, metastate: u32) -> (r: Vec<u8>)
    ensures
        r@ == key_message(action, keycode, repeat, metastate),
{
    let mut packet: Vec<u8> = Vec::new();
    packet.push(0);
    packet.push(action);
    push_be(&mut packet, keycode as u64, 4);
    push_be(&mut packet, repeat as u64, 4);
    push_be(&mut packet, metastate as u64, 4);
    assert(packet@ =~= key_message(action, keycode, repeat, metastate));
    packet
}

/// A text, in UTF-8.
pub open spec fn text_message(s: Seq<char>) -> Seq<u8> {
    seq![1u8] + be(vstd::utf8::encode_utf8(s).len(), 4) + vstd::utf8::encode_utf8(s)
}

/// A text, in UTF-8; its length is a 32-bit number.
pub fn text_packet(text: &str) -> (r: Result<Vec<u8>, AdapterError>)
    ensures
        r is Ok <==> vstd::utf8::encode_utf8(text@).len() <= u32::MAX,
        r matches Ok(p) ==> p@ == text_message(text@),
        r matches Err(e) ==> e@ == AdapterError::Failed("scrcpy 文本过长"@),
{
    let bytes = text.as_bytes();
    if bytes.len() as u64 > u32::MAX as u64 {
        return Err(AdapterError::Failed(crate::text::own("scrcpy 文本过长")));
    }
    let mut packet: Vec<u8> = Vec::new();
    packet.push(1);
    push_be(&mut packet, bytes.len() as u64, 4);
    let ghost head = packet@;
    let mut i: usize = 0;
    while i < bytes.len()
        invariant
            i <= bytes@.len(),
            packet@ =~= head + bytes@.take(i as int),
        decreases bytes@.len() - i,
    {
        packet.push(bytes[i]);
        i = i + 1;
    }
    assert(bytes@.take(i as int) =~= bytes@);
    assert(packet@ =~= text_message(text@));
    Ok(packet)
}

/// A side of the screen as the protocol holds it, in 16 bits.
pub open spec fn side_16(n: u32) -> nat {
    if n > u16::MAX {
        u16::MAX as nat
    } else {
        n as nat
    }
}

fn side_of(n: u32) -> (r: u64)
    ensures
        r == side_16(n),
{
    if n > u16::MAX as u32 {
        u16::MAX as u64
    } else {
        n as u64
    }
}

/// A touch.
pub open spec fn touch_message(
    action: u8,
    pointer_id: u64,
    x: u32,
    y: u32,
    screen_width: u32,
    screen_height: u32,
    pressure: u16,
    action_button: u32,
    buttons: u32,
) -> Seq<u8> {
    seq![2u8, action] + be(pointer_id as nat, 8) + be(x as nat, 4) + be(y as nat, 4) + be(
        side_16(screen_width),
        2,
    ) + be(side_16(screen_height), 2) + be(pressure as nat, 2) + be(action_button as nat, 4) + be(
        buttons as nat,
        4,
    )
}

/// A touch; the pressure is in 65535ths.
pub fn touch_packet(
    action: u8,
    pointer_id: u64,
    x: u32,
    y: u32,
    screen_width: u32,
    screen_height: u32,
    pressure: u16,
    action_button: u32,
    buttons: u32,
) -> (r: Vec<u8>)
    ensures
        r@ == touch_message(
            action,
            pointer_id,
            x,
            y,
            screen_width,
            screen_height,
            pressure,
            action_button,
            buttons,
        ),
{
    let mut packet: Vec<u8> = Vec::new();
    packet.push(2);
    packet.push(action);
    push_be(&mut packet, pointer_id, 8);
    push_be(&mut packet, x as u64, 4);
    push_be(&mut packet, y as u64, 4);
    push_be(&mut packet, side_of(screen_width), 2);
    push_be(&mut packet, side_of(screen_height), 2);
    push_be(&mut packet, pressure as u64, 2);
    push_be(&mut packet, action_button as u64, 4);
    push_be(&mut packet, buttons as u64, 4);
    assert(packet@ =~= touch_message(
        action,
        pointer_id,
        x,
        y,
        screen_width,
        screen_height,
        pressure,
        action_button,
        buttons,
    ));
    packet
}

/// A scroll amount within the range of the protocol.
pub open spec fn axis(v: int) -> int {
    if v < -16 {
        -16
    } else if v > 16 {
        16
    } else {
        v
    }
}

/// A scroll amount, which is a whole number, within the range of the protocol.
pub fn scroll_axis(value: i32) -> (r: i16)
    ensures
        r == axis(value as int),
{
    if value < -16 {
        -16
    } else if value > 16 {
        16
    } else {
        value as i16
    }
}

/// A signed 16-bit number as an unsigned one with the same bits.
pub open spec fn bits_16(v: int) -> nat {
    if v < 0 {
        (v + 0x10000) as nat
    } else {
        v as nat
    }
}

fn bits_of(v: i16) -> (r: u64)
    ensures
        r == bits_16(v as int),
{
    if v < 0 {
        (v as i64 + 0x10000) as u64
    } else {
        v as u64
    }
}

/// A turn of the wheel.
pub open spec fn scroll_message(
    x: u32,
    y: u32,
    screen_width: u32,
    screen_height: u32,
    hscroll: int,
    vscroll: int,
    buttons: u32,
) -> Seq<u8> {
    seq![3u8] + be(x as nat, 4) + be(y as nat, 4) + be(side_16(screen_width), 2) + be(
        side_16(screen_height),
        2,
    ) + be(bits_16(axis(hscroll)), 2) + be(bits_16(axis(vscroll)), 2) + be(buttons as nat, 4)
}

/// A turn of the wheel.
pub fn scroll_packet(
    x: u32,
    y: u32,
    screen_width: u32,
    screen_height: u32,
    hscroll: i32,
    vscroll: i32,
    buttons: u32,
) -> (r: Vec<u8>)
    ensures
        r@ == scroll_message(
            x,
            y,
            screen_width,
            screen_height,
            hscroll as int,
            vscroll as int,
            buttons,
        ),
{
    let mut packet: Vec<u8> = Vec::new();
    packet.push(3);
    push_be(&mut packet, x as u64, 4);
    push_be(&mut packet, y as u64, 4);
    push_be(&mut packet, side_of(screen_width), 2);
    push_be(&mut packet, side_of(screen_height), 2);
    push_be(&mut packet, bits_of(scroll_axis(hscroll)), 2);
    push_be(&mut packet, bits_of(scroll_axis(vscroll)), 2);
    push_be(&mut packet, buttons as u64, 4);
    assert(packet@ =~= scroll_message(
        x,
        y,
        screen_width,
        screen_height,
        hscroll as int,
        vscroll as int,
        buttons,
    ));
    packet
}

/// The lengths of the messages: 14 bytes for a key, 32 for a touch, 21 for the wheel, and 5
/// more than the text for a text.
pub proof fn message_lengths(
    a: u8,
    p: u64,
    x: u32,
    y: u32,
    w: u32,
    h: u32,
    pressure: u16,
    hs: int,
    vs: int,
    s: Seq<char>,
)
    ensures
        key_message(a, x, y, w).len() == 14,
        touch_message(a, p, x, y, w, h, pressure, x, y).len() == 32,
        scroll_message(x, y, w, h, hs, vs, x).len() == 21,
        text_message(s).len() == 5 + vstd::utf8::encode_utf8(s).len(),
{
    lemma_be_length(x as nat, 4);
    lemma_be_length(y as nat, 4);
    lemma_be_length(w as nat, 4);
    lemma_be_length(p as nat, 8);
    lemma_be_length(side_16(w), 2);
    lemma_be_length(side_16(h), 2);
    lemma_be_length(pressure as nat, 2);
    lemma_be_length(bits_16(axis(hs)), 2);
    lemma_be_length(bits_16(axis(vs)), 2);
    lemma_be_length(vstd::utf8::encode_utf8(s).len(), 4);
}

/// The control connection: whether it stands, and the messages for it.
#[derive(Debug, Clone, Copy, PartialEq, Eq, Structural)]
pub struct ScrcpyControl {
    pub connected: bool,
}

/// What a message without a connection is refused with.
pub open spec fn no_control() -> AdapterError<Seq<char>> {
    AdapterError::ControlInactive("scrcpy 控制通道未连接"@)
}

impl ScrcpyControl {
    pub fn new() -> (r: Self)
        ensures
            !r.connected,
    {
        ScrcpyControl { connected: false }
    }

    pub fn is_connected(&self) -> (r: bool)
        ensures
            r == self.connected,
    {
        self.connected
    }

    /// A message to write, if there is a connection.
    fn send(&self, packet: Vec<u8>) -> (r: Result<Vec<u8>, AdapterError>)
        ensures
            match r {
                Ok(p) => self.connected && p@ == packet@,
                Err(e) => !self.connected && e@ == no_control(),
            },
    {
        if self.connected {
            Ok(packet)
        } else {
            Err(AdapterError::ControlInactive(text::own("scrcpy 控制通道未连接")))
        }
    }

    /// A message could not be written: the connection is given up.
    pub fn write_failed(&mut self, why: &str) -> (r: AdapterError)
        ensures
            !final(self).connected,
            r@ == AdapterError::Failed("写入 scrcpy 控制通道失败："@ + why@),
    {
        self.connected = false;
        AdapterError::Failed(text::cat2("写入 scrcpy 控制通道失败：", why))
    }

    /// The message for a key event.
    pub fn keycode(&self, action: u8, keycode: u32, repeat: u32, metastate: u32) -> (r: Result<
        Vec<u8>,
        AdapterError,
    >)
        ensures
            match r {
                Ok(p) => self.connected && p@ == key_message(action, keycode, repeat, metastate),
                Err(e) => !self.connected && e@ == no_control(),
            },
    {
        self.send(keycode_packet(action, keycode, repeat, metastate))
    }

    /// The message for a text.
    pub fn text(&self, text: &str) -> (r: Result<Vec<u8>, AdapterError>)
        ensures
            match r {
                Ok(p) => self.connected && vstd::utf8::encode_utf8(text@).len() <= u32::MAX && p@
                    == text_message(text@),
                Err(e) => if vstd::utf8::encode_utf8(text@).len() > u32::MAX {
                    e@ == AdapterError::Failed("scrcpy 文本过长"@)
                } else {
                    !self.connected && e@ == no_control()
                },
            },
    {
        match text_packet(text) {
            Ok(p) => self.send(p),
            Err(e) => Err(e),
        }
    }

    /// The message for a touch; the pressure is in 65535ths.
    pub fn touch(
        &self,
        action: u8,
        pointer_id: u64,
        x: u32,
        y: u32,
        screen_width: u32,
        screen_height: u32,
        pressure: u16,
        action_button: u32,
        buttons: u32,
    ) -> (r: Result<Vec<u8>, AdapterError>)
        ensures
            match r {
                Ok(p) => self.connected && p@ == touch_message(
                    action,
                    pointer_id,
                    x,
                    y,
                    screen_width,
                    screen_height,
                    pressure,
                    action_button,
                    buttons,
                ),
                Err(e) => !self.connected && e@ == no_control(),
            },
    {
        self.send(
            touch_packet(
                action,
                pointer_id,
                x,
                y,
                screen_width,
                screen_height,
                pressure,
                action_button,
                buttons,
            ),
        )
    }

    /// The message for a turn of the wheel.
    pub fn scroll(
        &self,
        x: u32,
        y: u32,
        screen_width: u32,
        screen_height: u32,
        hscroll: i32,
        vscroll: i32,
        buttons: u32,
    ) -> (r: Result<Vec<u8>, AdapterError>)
        ensures
            match r {
                Ok(p) => self.connected && p@ == scroll_message(
                    x,
                    y,
                    screen_width,
                    screen_height,
                    hscroll as int,
                    vscroll as int,
                    buttons,
                ),
                Err(e) => !self.connected && e@ == no_control(),
            },
    {
        self.send(scroll_packet(x, y, screen_width, screen_height, hscroll, vscroll, buttons))
    }

    /// A finger goes down.
    pub fn touch_down(&self, x: u32, y: u32, width: u32, height: u32) -> (r: Result<
        Vec<u8>,
        AdapterError,
    >)
        ensures
            match r {
                Ok(p) => self.connected && p@ == finger_down(x, y, width, height),
                Err(e) => !self.connected && e@ == no_control(),
            },
    {
        self.touch(0, SCRCPY_POINTER_ID_GENERIC_FINGER, x, y, width, height, 65535, 0, 0)
    }

    /// A finger moves.
    pub fn touch_move(&self, x: u32, y: u32, width: u32, height: u32) -> (r: Result<
        Vec<u8>,
        AdapterError,
    >)
        ensures
            match r {
                Ok(p) => self.connected && p@ == finger_moved(x, y, width, height),
                Err(e) => !self.connected && e@ == no_control(),
            },
    {
        self.touch(2, SCRCPY_POINTER_ID_GENERIC_FINGER, x, y, width, height, 65535, 0, 0)
    }

    /// A finger goes up.
    pub fn touch_up(&self, x: u32, y: u32, width: u32, height: u32) -> (r: Result<
        Vec<u8>,
        AdapterError,
    >)
        ensures
            match r {
                Ok(p) => self.connected && p@ == finger_up(x, y, width, height),
                Err(e) => !self.connected && e@ == no_control(),
            },
    {
        self.touch(1, SCRCPY_POINTER_ID_GENERIC_FINGER, x, y, width, height, 0, 0, 0)
    }
}

/// A touch of the finger.
pub open spec fn finger(action: u8, x: u32, y: u32, width: u32, height: u32, pressure: u16) -> Seq<
    u8,
> {
    touch_message(
        action,
        SCRCPY_POINTER_ID_GENERIC_FINGER,
        x,
        y,
        width,
        height,
        pressure,
        0,
        0,
    )
}

/// A finger that goes down.
pub open spec fn finger_down(x: u32, y: u32, width: u32, height: u32) -> Seq<u8> {
    finger(0, x, y, width, height, 65535)
}

/// A finger that moves.
pub open spec fn finger_moved(x: u32, y: u32, width: u32, height: u32) -> Seq<u8> {
    finger(2, x, y, width, height, 65535)
}

/// A finger that goes up.
pub open spec fn finger_up(x: u32, y: u32, width: u32, height: u32) -> Seq<u8> {
    finger(1, x, y, width, height, 0)
}

/// The number that bytes spell, highest first.
pub open spec fn number_at(b: Seq<u8>) -> nat
    decreases b.len(),
{
    if b.len() == 0 {
        0
    } else {
        number_at(b.drop_last()) * 256 + b.last() as nat
    }
}

/// A 16-bit number as a signed one.
pub open spec fn signed_16(n: nat) -> int {
    if n < 0x8000 {
        n as int
    } else {
        n - 0x10000
    }
}

proof fn lemma_be_reads_back(n: nat, width: nat)
    requires
        n < vstd::arithmetic::power::pow(256, width),
    ensures
        number_at(be(n, width)) == n,
        be(n, width).len() == width,
    decreases width,
{
    lemma_be_length(n, width);
    vstd::arithmetic::power::lemma_pow0(256);
    if width > 0 {
        vstd::arithmetic::power::lemma_pow_adds(256, (width - 1) as nat, 1);
        vstd::arithmetic::power::lemma_pow1(256);
        let p = vstd::arithmetic::power::pow(256, (width - 1) as nat);
        assert(n / 256 < p) by (nonlinear_arith)
            requires
                n < p * 256,
        ;
        lemma_be_reads_back(n / 256, (width - 1) as nat);
        let b = be(n, width);
        assert(b.drop_last() =~= be(n / 256, (width - 1) as nat));
        assert(b.last() == (n % 256) as u8);
    }
}

proof fn lemma_widths(a: u16, b: u32, c: u64)
    ensures
        number_at(be(a as nat, 2)) == a,
        number_at(be(b as nat, 4)) == b,
        number_at(be(c as nat, 8)) == c,
        be(a as nat, 2).len() == 2,
        be(b as nat, 4).len() == 4,
        be(c as nat, 8).len() == 8,
{
    reveal_with_fuel(vstd::arithmetic::power::pow, 9);
    assert(vstd::arithmetic::power::pow(256, 2) == 0x1_0000);
    assert(vstd::arithmetic::power::pow(256, 4) == 0x1_0000_0000);
    assert(vstd::arithmetic::power::pow(256, 8) == 0x1_0000_0000_0000_0000);
    lemma_be_reads_back(a as nat, 2);
    lemma_be_reads_back(b as nat, 4);
    lemma_be_reads_back(c as nat, 8);
}

/// A touch reads back by the offsets of the protocol: its kind, what the finger does, which
/// pointer it is, where it touches, how large the screen is (a side that 16 bits cannot hold
/// counts as the largest one that they can), how hard it presses, and the buttons.
pub proof fn touches_read_back(
    action: u8,
    pointer_id: u64,
    x: u32,
    y: u32,
    screen_width: u32,
    screen_height: u32,
    pressure: u16,
    action_button: u32,
    buttons: u32,
)
    ensures
        ({
            let m = touch_message(
                action,
                pointer_id,
                x,
                y,
                screen_width,
                screen_height,
                pressure,
                action_button,
                buttons,
            );
            &&& m.len() == 32
            &&& m[0] == 2
            &&& m[1] == action
            &&& number_at(m.subrange(2, 10)) == pointer_id
            &&& number_at(m.subrange(10, 14)) == x
            &&& number_at(m.subrange(14, 18)) == y
            &&& number_at(m.subrange(18, 20)) == (if screen_width <= 65535 {
                screen_width as int
            } else {
                65535
            })
            &&& number_at(m.subrange(20, 22)) == (if screen_height <= 65535 {
                screen_height as int
            } else {
                65535
            })
            &&& number_at(m.subrange(22, 24)) == pressure
            &&& number_at(m.subrange(24, 28)) == action_button
            &&& number_at(m.subrange(28, 32)) == buttons
        }),
{
    let w = side_16(screen_width);
    let h = side_16(screen_height);
    lemma_widths(w as u16, x, pointer_id);
    lemma_widths(h as u16, y, pointer_id);
    lemma_widths(pressure, action_button, pointer_id);
    lemma_widths(pressure, buttons, pointer_id);
    let m = touch_message(
        action,
        pointer_id,
        x,
        y,
        screen_width,
        screen_height,
        pressure,
        action_button,
        buttons,
    );
    assert(m.subrange(2, 10) =~= be(pointer_id as nat, 8));
    assert(m.subrange(10, 14) =~= be(x as nat, 4));
    assert(m.subrange(14, 18) =~= be(y as nat, 4));
    assert(m.subrange(18, 20) =~= be(w, 2));
    assert(m.subrange(20, 22) =~= be(h, 2));
    assert(m.subrange(22, 24) =~= be(pressure as nat, 2));
    assert(m.subrange(24, 28) =~= be(action_button as nat, 4));
    assert(m.subrange(28, 32) =~= be(buttons as nat, 4));
}

/// Whether a message is a touch of the generic finger at a point of a screen.
pub open spec fn touches_at(m: Seq<u8>, x: u32, y: u32, width: u32, height: u32) -> bool {
    &&& m.len() == 32
    &&& m[0] == 2
    &&& number_at(m.subrange(2, 10)) == 0xffff_ffff_ffff_fffe
    &&& number_at(m.subrange(10, 14)) == x
    &&& number_at(m.subrange(14, 18)) == y
    &&& width <= 65535 ==> number_at(m.subrange(18, 20)) == width
    &&& height <= 65535 ==> number_at(m.subrange(20, 22)) == height
    &&& number_at(m.subrange(24, 28)) == 0
    &&& number_at(m.subrange(28, 32)) == 0
}

/// A finger touches where it is said to, whatever it does there. It goes down and moves with its
/// full weight and goes up without any, and the phone is told which of the three it is.
pub proof fn fingers_read_back(x: u32, y: u32, width: u32, height: u32)
    ensures
        touches_at(finger_down(x, y, width, height), x, y, width, height),
        touches_at(finger_moved(x, y, width, height), x, y, width, height),
        touches_at(finger_up(x, y, width, height), x, y, width, height),
        finger_down(x, y, width, height)[1] == 0,
        finger_up(x, y, width, height)[1] == 1,
        finger_moved(x, y, width, height)[1] == 2,
        number_at(finger_down(x, y, width, height).subrange(22, 24)) == 65535,
        number_at(finger_moved(x, y, width, height).subrange(22, 24)) == 65535,
        number_at(finger_up(x, y, width, height).subrange(22, 24)) == 0,
{
    let id = SCRCPY_POINTER_ID_GENERIC_FINGER;
    touches_read_back(0, id, x, y, width, height, 65535, 0, 0);
    touches_read_back(2, id, x, y, width, height, 65535, 0, 0);
    touches_read_back(1, id, x, y, width, height, 0, 0, 0);
}

/// A turn of the wheel reads back by the offsets of the protocol: its kind, where the pointer
/// is, how large the screen is, and how far it turns sideways and up or down, as signed numbers
/// of at most sixteen.
pub proof fn wheel_turns_read_back(
    x: u32,
    y: u32,
    screen_width: u32,
    screen_height: u32,
    hscroll: int,
    vscroll: int,
    buttons: u32,
)
    ensures
        ({
            let m = scroll_message(
                x,
                y,
                screen_width,
                screen_height,
                hscroll,
                vscroll,
                buttons,
            );
            let h = signed_16(number_at(m.subrange(13, 15)));
            let v = signed_16(number_at(m.subrange(15, 17)));
            &&& m.len() == 21
            &&& m[0] == 3
            &&& number_at(m.subrange(1, 5)) == x
            &&& number_at(m.subrange(5, 9)) == y
            &&& number_at(m.subrange(9, 11)) == (if screen_width <= 65535 {
                screen_width as int
            } else {
                65535
            })
            &&& number_at(m.subrange(11, 13)) == (if screen_height <= 65535 {
                screen_height as int
            } else {
                65535
            })
            &&& -16 <= hscroll <= 16 ==> h == hscroll
            &&& hscroll > 16 ==> h == 16
            &&& hscroll < -16 ==> h == -16
            &&& -16 <= vscroll <= 16 ==> v == vscroll
            &&& vscroll > 16 ==> v == 16
            &&& vscroll < -16 ==> v == -16
            &&& number_at(m.subrange(17, 21)) == buttons
        }),
{
    let w = side_16(screen_width);
    let t = side_16(screen_height);
    let a = bits_16(axis(hscroll));
    let b = bits_16(axis(vscroll));
    lemma_widths(w as u16, x, 0);
    lemma_widths(t as u16, y, 0);
    lemma_widths(a as u16, buttons, 0);
    lemma_widths(b as u16, buttons, 0);
    let m = scroll_message(x, y, screen_width, screen_height, hscroll, vscroll, buttons);
    assert(m.subrange(1, 5) =~= be(x as nat, 4));
    assert(m.subrange(5, 9) =~= be(y as nat, 4));
    assert(m.subrange(9, 11) =~= be(w, 2));
    assert(m.subrange(11, 13) =~= be(t, 2));
    assert(m.subrange(13, 15) =~= be(a, 2));
    assert(m.subrange(15, 17) =~= be(b, 2));
    assert(m.subrange(17, 21) =~= be(buttons as nat, 4));
}

/// A key event reads back by the offsets of the protocol: its kind, whether the key goes down or
/// up, which key it is, how often it repeats, and the modifiers.
pub proof fn key_events_read_back(action: u8, keycode: u32, repeat: u32, metastate: u32)
    ensures
        ({
            let m = key_message(action, keycode, repeat, metastate);
            &&& m.len() == 14
            &&& m[0] == 0
            &&& m[1] == action
            &&& number_at(m.subrange(2, 6)) == keycode
            &&& number_at(m.subrange(6, 10)) == repeat
            &&& number_at(m.subrange(10, 14)) == metastate
        }),
{
    lemma_widths(0, keycode, 0);
    lemma_widths(0, repeat, 0);
    lemma_widths(0, metastate, 0);
    let m = key_message(action, keycode, repeat, metastate);
    assert(m.subrange(2, 6) =~= be(keycode as nat, 4));
    assert(m.subrange(6, 10) =~= be(repeat as nat, 4));
    assert(m.subrange(10, 14) =~= be(metastate as nat, 4));
}

/// A text reads back: behind its kind and its length stand the bytes that decode to it.
pub proof fn texts_read_back(s: Seq<char>)
    requires
        vstd::utf8::encode_utf8(s).len() <= u32::MAX,
    ensures
        ({
            let m = text_message(s);
            &&& m[0] == 1
            &&& number_at(m.subrange(1, 5)) == m.len() - 5
            &&& vstd::utf8::valid_utf8(m.skip(5))
            &&& vstd::utf8::decode_utf8(m.skip(5)) == s
        }),
{
    let n = vstd::utf8::encode_utf8(s).len();
    lemma_widths(0, n as u32, 0);
    let m = text_message(s);
    assert(m.subrange(1, 5) =~= be(n, 4));
    assert(m.skip(5) =~= vstd::utf8::encode_utf8(s));
    vstd::utf8::encode_utf8_valid_utf8(s);
    vstd::utf8::encode_utf8_decode_utf8(s);
}

// ---------------------------------------------------------------------------
// The source
// ---------------------------------------------------------------------------

/// The mirror of one Android device: the size of its screen, whether it runs, and whether a
/// frame has come.
#[derive(Debug)]
pub struct AndroidScreenSource {
    pub width: u32,
    pub height: u32,
    pub running: bool,
    pub first_frame: bool,
}

impl AndroidScreenSource {
    /// Once everything runs.
    pub open spec fn after_start(self) -> AndroidScreenSource {
        AndroidScreenSource { running: true, first_frame: false, ..self }
    }

    /// Once a frame has come.
    pub open spec fn after_frame(self) -> AndroidScreenSource {
        AndroidScreenSource { first_frame: true, ..self }
    }

    /// Once a worker has failed.
    pub open spec fn after_failure(self) -> AndroidScreenSource {
        AndroidScreenSource { running: false, ..self }
    }

    /// Once the mirror is stopped.
    pub open spec fn after_stop(self) -> AndroidScreenSource {
        AndroidScreenSource { running: false, first_frame: false, ..self }
    }

    /// A mirror of a screen; a side counts as at least two.
    pub fn new(width: u32, height: u32) -> (r: Self)
        ensures
            r.width == at_least_two(width),
            r.height == at_least_two(height),
            !r.running,
            !r.first_frame,
    {
        AndroidScreenSource {
            width: if width < 2 {
                2
            } else {
                width
            },
            height: if height < 2 {
                2
            } else {
                height
            },
            running: false,
            first_frame: false,
        }
    }

    /// The size of the screen.
    pub fn dimensions(&self) -> (r: (u32, u32))
        ensures
            r == (self.width, self.height),
    {
        (self.width, self.height)
    }

    /// The size of the frames, which is also the size that the control protocol refers to.
    pub fn video_dimensions(&self) -> (r: (u32, u32))
        ensures
            (r.0 as int, r.1 as int) == frame_size(self.width, self.height),
    {
        scaled_dimensions(self.width, self.height)
    }

    /// Tells a sink the size of the frames.
    pub fn attach_sink<S: FrameSink>(&self, sink: &mut S)
        ensures
            final(sink).told() == old(sink).told().push(
                SinkCall::Size {
                    width: frame_size(self.width, self.height).0 as u32,
                    height: frame_size(self.width, self.height).1 as u32,
                },
            ),
    {
        let (w, h) = scaled_dimensions(self.width, self.height);
        sink.on_size(w, h);
    }

    /// Everything runs; no frame has come yet.
    pub fn started(&mut self)
        ensures
            *final(self) == old(self).after_start(),
    {
        self.first_frame = false;
        self.running = true;
    }

    /// A frame has come; true for the first one.
    pub fn on_frame(&mut self) -> (r: bool)
        ensures
            r == !old(self).first_frame,
            *final(self) == old(self).after_frame(),
    {
        let first = !self.first_frame;
        self.first_frame = true;
        first
    }

    /// A worker has failed; true where that ends the mirror, which is reported once.
    pub fn fail_from_worker(&mut self) -> (r: bool)
        ensures
            r == old(self).running,
            *final(self) == old(self).after_failure(),
    {
        let was = self.running;
        self.running = false;
        was
    }

    /// The mirror is stopped.
    pub fn stop(&mut self)
        ensures
            *final(self) == old(self).after_stop(),
    {
        self.running = false;
        self.first_frame = false;
    }
}

// ---------------------------------------------------------------------------
// Laws
// ---------------------------------------------------------------------------

/// Frames keep the shape of the screen: a screen that fits keeps its sides but for an odd pixel,
/// and of a larger one the longest side becomes the longest that is allowed and the other side
/// its share, rounded down to an even number. A screen that is turned gives the frame turned.
pub proof fn frames_keep_the_shape_of_the_screen(width: u32, height: u32)
    requires
        width >= 2,
        height >= 2,
    ensures
        ({
            let (w, h) = frame_size(width, height);
            &&& frame_size(height, width) == (h, w)
            &&& width <= 1080 && height <= 1080 ==> (w == width || w == width - 1) && (h == height
                || h == height - 1)
            &&& width >= height && width > 1080 ==> w == 1080
            &&& width >= height && width > 1080 && h > 2 ==> width * h <= height * 1080 < width * (h
                + 2)
        }),
{
    let l: int = larger(width as int, height as int);
    if width >= height && width > 1080 {
        assert(width * 1080 == 1080 * width) by (nonlinear_arith);
        vstd::arithmetic::div_mod::lemma_div_multiples_vanish(1080, width as int);
        assert(scaled_side(width as int, l) == 1080);
        let n: int = height * 1080;
        let q: int = n / (width as int);
        vstd::arithmetic::div_mod::lemma_fundamental_div_mod(n, width as int);
        vstd::arithmetic::div_mod::lemma_mod_bound(n, width as int);
        let rem: int = n % (width as int);
        let h: int = frame_size(width, height).1;
        if h > 2 {
            assert(h <= q < h + 2);
            assert(width * h <= n < width * (h + 2)) by (nonlinear_arith)
                requires
                    n == width * q + rem,
                    0 <= rem < width,
                    h <= q < h + 2,
                    width > 0,
            ;
        }
    }
}

/// The number of a connection has 31 bits and is not zero, and reads back from its digits.
pub proof fn connection_numbers_read_back(n: u32)
    ensures
        1 <= scid_value(n) < 0x8000_0000,
        n % 0x8000_0000 != 0 ==> scid_value(n) == n % 0x8000_0000,
        n % 0x8000_0000 == 0 ==> scid_value(n) == 1,
        text::hex(scid_value(n), 8, false).len() == 8,
        text::hex_value(text::hex(scid_value(n), 8, false)) == scid_value(n),
{
    reveal_with_fuel(vstd::arithmetic::power::pow, 9);
    text::hexadecimal_numbers_read_back(scid_value(n), 8, false);
}

/// A tunnel is taken down at the end at which it was set up: one to the device at its port of
/// this machine, one from the device at its socket there. Both lead between the same two ends.
pub proof fn tunnels_are_taken_down_where_they_stand(
    serial: Seq<char>,
    socket: Seq<char>,
    port: u16,
)
    ensures
        ({
            let to = forward_words(serial, socket, port);
            let from = reverse_words(serial, socket, port);
            let end_to = removal_words(serial, socket, port, true);
            let end_from = removal_words(serial, socket, port, false);
            &&& to[2] == "forward"@ && end_to[2] == "forward"@ && from[2] == "reverse"@
                && end_from[2] == "reverse"@
            &&& end_to.len() == 5 && end_from.len() == 5 && end_to[3] == "--remove"@ && end_from[3]
                == "--remove"@
            &&& end_to[4] == to[3] && end_from[4] == from[3]
            &&& to[3] == from[4] && to[4] == from[3]
            &&& text::behind(to[3], "tcp:"@) == Some(text::dec(port as nat))
            &&& text::parsed(text::dec(port as nat), u16::MAX as nat) == Some(port as nat)
            &&& text::behind(to[4], "localabstract:"@) == Some(socket)
            &&& to[1] == serial && from[1] == serial && end_to[1] == serial && end_from[1] == serial
        }),
{
    text::decimal_numbers_read_back(port as nat, u16::MAX as nat);
    let a = "tcp:"@ + text::dec(port as nat);
    assert(a.subrange(0, "tcp:"@.len() as int) =~= "tcp:"@);
    assert(a.skip("tcp:"@.len() as int) =~= text::dec(port as nat));
    let b = "localabstract:"@ + socket;
    assert(b.subrange(0, "localabstract:"@.len() as int) =~= "localabstract:"@);
    assert(b.skip("localabstract:"@.len() as int) =~= socket);
}

/// The server is told the number that its socket is named by and the direction of the tunnel,
/// and runs with control and without sound.
pub proof fn servers_are_told_their_connection(serial: Seq<char>, scid: Seq<char>, forward: bool)
    ensures
        ({
            let all = server_words(serial, scid, forward);
            &&& all[0] == "-s"@ && all[1] == serial
            &&& all.contains("scid="@ + scid)
            &&& all.contains("tunnel_forward=true"@) <== forward
            &&& all.contains("tunnel_forward=false"@) <== !forward
            &&& all.contains("control=true"@) && all.contains("audio=false"@)
            &&& text::behind(socket_text(scid), "scrcpy_"@) == Some(scid)
        }),
{
    let all = server_words(serial, scid, forward);
    reveal_strlit("tunnel_forward=");
    reveal_strlit("true");
    reveal_strlit("false");
    reveal_strlit("tunnel_forward=true");
    reveal_strlit("tunnel_forward=false");
    assert("tunnel_forward="@ + "true"@ =~= "tunnel_forward=true"@);
    assert("tunnel_forward="@ + "false"@ =~= "tunnel_forward=false"@);
    assert(all[8] == "scid="@ + scid);
    assert(all[9] == "tunnel_forward="@ + bool_text(forward));
    assert(all[10] == "audio=false"@);
    assert(all[11] == "control=true"@);
    let s = socket_text(scid);
    assert(s.subrange(0, "scrcpy_"@.len() as int) =~= "scrcpy_"@);
    assert(s.skip("scrcpy_"@.len() as int) =~= scid);
}

/// The step at which a start of mirroring failed.
pub open spec fn failing_step(failure: ScreenFailure) -> ScreenAction {
    match failure {
        ScreenFailure::Listen => ScreenAction::Listen,
        ScreenFailure::PushServer => ScreenAction::PushServer,
        ScreenFailure::Tunnel => ScreenAction::SetupForward,
        ScreenFailure::StartServer => ScreenAction::StartServer,
        ScreenFailure::StartDecoder => ScreenAction::StartDecoder,
    }
}

/// A start of mirroring opens a port, puts the server on the device, sets up a tunnel, starts the
/// server and then the decoder. Where the tunnel from the device fails, one to the device is
/// tried in its place, and only then does the tunnel count as one to the device. Every other step
/// that fails ends the start with that step; an end stays an end.
pub proof fn mirroring_starts_in_order(s: ScreenStart)
    ensures
        s.action is Listen && !s.tunnel_forward ==> {
            let tunnel = s.next(true).next(true);
            let a = tunnel.next(true);
            let b = tunnel.next(false).next(true);
            &&& s.next(true).action is PushServer && tunnel.action is SetupReverse
            &&& tunnel.next(false).action is SetupForward
            &&& a.action is StartServer && !a.tunnel_forward
            &&& b.action is StartServer && b.tunnel_forward
            &&& a.next(true).action is StartDecoder && b.next(true).action is StartDecoder
            &&& a.next(true).next(true).action is Started && !a.next(true).next(true).tunnel_forward
            &&& b.next(true).next(true).action is Started && b.next(true).next(true).tunnel_forward
        },
        !(s.action is SetupReverse) && !(s.action is Started) && !(s.action is Fail) ==> (s.next(
            false,
        ).action matches ScreenAction::Fail(f) && failing_step(f) == s.action),
        s.action is Started || s.action is Fail ==> s.next(true) == s && s.next(false) == s,
{
}

/// A phone that has not called yet is waited for, a server that does not listen yet is called
/// again, and both only until the time is up; any other error is reported.
pub proof fn attempts_are_repeated_while_it_makes_sense(
    from_phone: bool,
    kind: AttemptError,
    past_deadline: bool,
)
    ensures
        ({
            let v = attempt_verdict(from_phone, kind, past_deadline);
            let passing = if from_phone {
                kind is WouldBlock
            } else {
                kind is ConnectionRefused || kind is ConnectionReset || kind is NotFound
            };
            &&& v is Retry <==> passing && !past_deadline
            &&& v is GiveUp <==> past_deadline && (passing || !from_phone)
            &&& v is Fail <==> !passing && (from_phone || !past_deadline)
        }),
{
}

/// The decoder of a screen reads the stream from its input and writes pixels of four bytes, scaled
/// to the size that it is given, across before down.
pub proof fn screens_are_scaled_to_their_size(width: u32, height: u32)
    ensures
        ({
            let all = decoder_words(width, height);
            let w = text::dec(width as nat);
            let h = text::dec(height as nat);
            &&& all.len() == 25 && all[24] == "pipe:1"@
            &&& all[9] == "-f"@ && all[10] == "h264"@ && all[11] == "-i"@ && all[12] == "pipe:0"@
            &&& all[18] == "-pix_fmt"@ && all[19] == "rgba"@
            &&& all[20] == "-vf"@ && text::parted(all[21], ':') == Some(
                ("scale="@ + w, h + ":flags=fast_bilinear"@),
            )
        }),
{
    let all = decoder_words(width, height);
    let w = text::dec(width as nat);
    let h = text::dec(height as nat);
    reveal_strlit(":");
    reveal_strlit("scale=");
    assert(":"@ =~= seq![':']);
    let head = "scale="@ + w;
    let rest = h + ":flags=fast_bilinear"@;
    assert(all[21] =~= head + seq![':'] + rest);
    lemma_no_colon(width as nat);
    assert(!head.contains(':')) by {
        if head.contains(':') {
            let j = choose|j: int| 0 <= j < head.len() && head[j] == ':';
            if j >= 6 {
                assert(w[j - 6] == ':');
                assert(w.contains(w[j - 6]));
            }
        }
    }
    text::texts_are_parted_at_the_first(head, ':', rest);
}

proof fn lemma_no_colon(n: nat)
    ensures
        !text::dec(n).contains(':'),
{
    let d = text::dec(n);
    text::decimal_numbers_read_back(n, n);
    if d.contains(':') {
        let j = choose|j: int| 0 <= j < d.len() && d[j] == ':';
        assert(text::is_digit(d[j]));
    }
}

/// A place that was named comes first, then what ships with the application, then where it is
/// usually installed, and last what lies beside an installed `scrcpy`.
pub proof fn named_servers_come_first(
    platform: HostPlatform,
    named: Seq<char>,
    resources: Seq<char>,
    dir: Seq<char>,
)
    ensures
        server_places(platform, Some(named), resources, None)[0] == text::trimmed(named),
        server_places(platform, Some(named), resources, None).drop_first() == server_places(
            platform,
            None,
            resources,
            None,
        ),
        server_places(platform, None, resources, None)[0] == integrations::below(
            platform,
            resources,
            "binaries/scrcpy-server"@,
        ),
        server_places(platform, None, resources, None).is_prefix_of(
            server_places(platform, None, resources, Some(dir)),
        ),
        server_places(platform, None, resources, Some(dir)).last() == integrations::below(
            platform,
            dir,
            "../../share/scrcpy/scrcpy-server"@,
        ),
{
    let a = server_places(platform, Some(named), resources, None);
    let b = server_places(platform, None, resources, None);
    assert(a.drop_first() =~= b);
}

/// A call succeeded exactly where it ran and ended well; otherwise it is a failure that says why.
pub proof fn calls_that_end_badly_are_failures(
    operation: Seq<char>,
    run: Result<(bool, Seq<char>), Seq<char>>,
    not_run: Seq<char>,
)
    ensures
        call_error(operation, run, not_run) is None <==> (run matches Ok(r) && r.0),
        call_error(operation, run, not_run) matches Some(e) ==> e is Failed,
        run matches Err(why) ==> call_error(operation, run, not_run) == Some(
            AdapterError::Failed(not_run + why),
        ),
        run matches Ok(r) ==> !r.0 ==> (call_error(operation, run, not_run) matches Some(
            AdapterError::Failed(s),
        ) && operation.is_prefix_of(s)),
{
    match run {
        Ok((false, status)) => {
            let s = operation + "失败（进程状态 "@ + status + "）"@;
            assert(operation.is_prefix_of(s));
        },
        _ => {},
    }
}

/// Mirroring starts where nothing runs yet and everything for it is there. That it runs already
/// counts before what is missing; what is missing is a missing dependency.
pub proof fn mirroring_starts_where_everything_is_there(
    running: bool,
    ffmpeg: bool,
    server: bool,
    adb: Seq<char>,
    adb_exists: bool,
)
    ensures
        ({
            let e = start_obstacle(running, ffmpeg, server, adb, adb_exists);
            &&& e is None <==> !running && ffmpeg && server && adb_exists
            &&& running <==> (e is Some && e->Some_0 is Busy)
            &&& e is Some && !running ==> e->Some_0 is DependencyMissing
        }),
        start_obstacle(true, ffmpeg, server, adb, adb_exists) == start_obstacle(
            true,
            true,
            true,
            adb,
            true,
        ),
        start_obstacle(false, false, server, adb, adb_exists) == start_obstacle(
            false,
            false,
            true,
            adb,
            true,
        ),
        start_obstacle(false, true, false, adb, adb_exists) == start_obstacle(
            false,
            true,
            false,
            adb,
            true,
        ),
{
}

/// What was done is undone: the phone is cleaned up once it was touched, and the server is stopped
/// once it was started.
pub proof fn failed_screens_undo_what_they_did(failure: ScreenFailure)
    ensures
        cleans_up(failure) <==> !(failing_step(failure) is Listen),
        stops_server(failure) <==> failing_step(failure) is StartDecoder,
        stops_server(failure) ==> cleans_up(failure),
{
}

/// Of the frames of a screen one is the first, until it is started or stopped again; a worker that
/// fails ends a screen that runs, once.
pub proof fn first_frames_and_failures_come_once(s: AndroidScreenSource)
    ensures
        s.after_start().running && !s.after_start().first_frame,
        s.after_frame().first_frame && s.after_frame().running == s.running,
        s.after_failure().first_frame == s.first_frame && !s.after_failure().running,
        !s.after_stop().running && !s.after_stop().first_frame,
        s.after_start().width == s.width && s.after_frame().width == s.width
            && s.after_failure().width == s.width && s.after_stop().width == s.width,
        s.after_start().height == s.height && s.after_frame().height == s.height
            && s.after_failure().height == s.height && s.after_stop().height == s.height,
{
}


} // verus!
