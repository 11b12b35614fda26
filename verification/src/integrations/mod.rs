//! The parts that talk to phones: mirroring, input, clipboard, device discovery, diagnostics.
//!
//! All of them report failures as an [`AdapterError`], which has a stable code and a text.
use vstd::prelude::*;

use crate::seqs;
use crate::text;

pub mod adb;
pub mod android_frame;
pub mod clipboard_adapter;
pub mod diagnostics;
pub mod ffmpeg_bridge;
pub mod frame_bridge;
pub mod hid_adapter;
pub mod hid_report;
pub mod ios_usb_control;
pub mod ios_wda_setup;
pub mod macos_hid;
pub mod mirror_adapter;
pub mod text_encoder;
pub mod usb_devices;
pub mod wda_http;
pub mod wda_requests;
pub mod wda_source;

verus! {

/// A failure of an adapter. The type of the texts is a parameter, so that contracts can speak
/// of `AdapterError<Seq<char>>`.
#[derive(Debug)]
pub enum AdapterError<T = String> {
    DependencyMissing(T),
    UnsupportedPlatform(T),
    PendingRealDeviceValidation(T),
    PeripheralUnsupported,
    IosUsbUnavailable(T),
    Failed(T),
    ControlInactive(T),
    Busy(T),
}

impl View for AdapterError<String> {
    type V = AdapterError<Seq<char>>;

    open spec fn view(&self) -> AdapterError<Seq<char>> {
        match self {
            AdapterError::DependencyMissing(s) => AdapterError::DependencyMissing(s@),
            AdapterError::UnsupportedPlatform(s) => AdapterError::UnsupportedPlatform(s@),
            AdapterError::PendingRealDeviceValidation(s) => AdapterError::PendingRealDeviceValidation(
                s@,
            ),
            AdapterError::PeripheralUnsupported => AdapterError::PeripheralUnsupported,
            AdapterError::IosUsbUnavailable(s) => AdapterError::IosUsbUnavailable(s@),
            AdapterError::Failed(s) => AdapterError::Failed(s@),
            AdapterError::ControlInactive(s) => AdapterError::ControlInactive(s@),
            AdapterError::Busy(s) => AdapterError::Busy(s@),
        }
    }
}

impl AdapterError<Seq<char>> {
    /// The stable code of a failure.
    pub open spec fn code_text(self) -> Seq<char> {
        match self {
            AdapterError::DependencyMissing(_) => "dependency_missing"@,
            AdapterError::UnsupportedPlatform(_) => "unsupported_platform"@,
            AdapterError::PendingRealDeviceValidation(_) => "pending_real_device_validation"@,
            AdapterError::PeripheralUnsupported => "peripheral_unsupported"@,
            AdapterError::IosUsbUnavailable(_) => "ios_usb_unavailable"@,
            AdapterError::Failed(_) => "adapter_failed"@,
            AdapterError::ControlInactive(_) => "control_inactive"@,
            AdapterError::Busy(_) => "session_busy"@,
        }
    }

    /// The text of a failure, as it is shown.
    pub open spec fn message_text(self) -> Seq<char> {
        match self {
            AdapterError::DependencyMissing(s) => "依赖缺失："@ + s,
            AdapterError::UnsupportedPlatform(s) => "当前平台不支持："@ + s,
            AdapterError::PendingRealDeviceValidation(s) => "该能力尚未在真实设备验证："@ + s,
            AdapterError::PeripheralUnsupported => "蓝牙适配器不支持 LE Peripheral 角色"@,
            AdapterError::IosUsbUnavailable(s) => "iOS USB/WDA 控制不可用："@ + s,
            AdapterError::Failed(s) => "操作失败："@ + s,
            AdapterError::ControlInactive(s) => "控制未激活："@ + s,
            AdapterError::Busy(s) => "会话正忙或有未完成操作："@ + s,
        }
    }
}

impl AdapterError {
    /// The stable code of the failure; it does not change with the wording of the text.
    pub fn code(&self) -> (r: &'static str)
        ensures
            r@ == self@.code_text(),
    {
        match self {
            AdapterError::DependencyMissing(_) => "dependency_missing",
            AdapterError::UnsupportedPlatform(_) => "unsupported_platform",
            AdapterError::PendingRealDeviceValidation(_) => "pending_real_device_validation",
            AdapterError::PeripheralUnsupported => "peripheral_unsupported",
            AdapterError::IosUsbUnavailable(_) => "ios_usb_unavailable",
            AdapterError::Failed(_) => "adapter_failed",
            AdapterError::ControlInactive(_) => "control_inactive",
            AdapterError::Busy(_) => "session_busy",
        }
    }

    /// The text of the failure, as it is shown.
    pub fn message(&self) -> (r: String)
        ensures
            r@ == self@.message_text(),
    {
        match self {
            AdapterError::DependencyMissing(s) => text::cat2("依赖缺失：", s.as_str()),
            AdapterError::UnsupportedPlatform(s) => text::cat2("当前平台不支持：", s.as_str()),
            AdapterError::PendingRealDeviceValidation(s) => text::cat2(
                "该能力尚未在真实设备验证：",
                s.as_str(),
            ),
            AdapterError::PeripheralUnsupported => text::own(
                "蓝牙适配器不支持 LE Peripheral 角色",
            ),
            AdapterError::IosUsbUnavailable(s) => text::cat2(
                "iOS USB/WDA 控制不可用：",
                s.as_str(),
            ),
            AdapterError::Failed(s) => text::cat2("操作失败：", s.as_str()),
            AdapterError::ControlInactive(s) => text::cat2("控制未激活：", s.as_str()),
            AdapterError::Busy(s) => text::cat2("会话正忙或有未完成操作：", s.as_str()),
        }
    }
}

/// Different failures have different codes.
pub proof fn codes_tell_failures_apart(a: AdapterError<Seq<char>>, b: AdapterError<Seq<char>>)
    ensures
        a.code_text() == b.code_text() <==> {
            ||| a is DependencyMissing && b is DependencyMissing
            ||| a is UnsupportedPlatform && b is UnsupportedPlatform
            ||| a is PendingRealDeviceValidation && b is PendingRealDeviceValidation
            ||| a is PeripheralUnsupported && b is PeripheralUnsupported
            ||| a is IosUsbUnavailable && b is IosUsbUnavailable
            ||| a is Failed && b is Failed
            ||| a is ControlInactive && b is ControlInactive
            ||| a is Busy && b is Busy
        },
{
    reveal_strlit("dependency_missing");
    reveal_strlit("unsupported_platform");
    reveal_strlit("pending_real_device_validation");
    reveal_strlit("peripheral_unsupported");
    reveal_strlit("ios_usb_unavailable");
    reveal_strlit("adapter_failed");
    reveal_strlit("control_inactive");
    reveal_strlit("session_busy");
    assert(a.code_text().len() == b.code_text().len() ==> a.code_text()[0] == b.code_text()[0] ==> a.code_text()[1] == b.code_text()[1] ==> {
            ||| a is DependencyMissing && b is DependencyMissing
            ||| a is UnsupportedPlatform && b is UnsupportedPlatform
            ||| a is PendingRealDeviceValidation && b is PendingRealDeviceValidation
            ||| a is PeripheralUnsupported && b is PeripheralUnsupported
            ||| a is IosUsbUnavailable && b is IosUsbUnavailable
            ||| a is Failed && b is Failed
            ||| a is ControlInactive && b is ControlInactive
            ||| a is Busy && b is Busy
        });
}

/// A code says which failure it is.
pub proof fn codes_name_their_failure(e: AdapterError<Seq<char>>)
    ensures
        e.code_text() == "dependency_missing"@ <==> e is DependencyMissing,
        e.code_text() == "unsupported_platform"@ <==> e is UnsupportedPlatform,
        e.code_text() == "pending_real_device_validation"@ <==> e is PendingRealDeviceValidation,
        e.code_text() == "peripheral_unsupported"@ <==> e is PeripheralUnsupported,
        e.code_text() == "ios_usb_unavailable"@ <==> e is IosUsbUnavailable,
        e.code_text() == "adapter_failed"@ <==> e is Failed,
        e.code_text() == "control_inactive"@ <==> e is ControlInactive,
        e.code_text() == "session_busy"@ <==> e is Busy,
{
    codes_tell_failures_apart(e, AdapterError::DependencyMissing(Seq::empty()));
    codes_tell_failures_apart(e, AdapterError::UnsupportedPlatform(Seq::empty()));
    codes_tell_failures_apart(e, AdapterError::PendingRealDeviceValidation(Seq::empty()));
    codes_tell_failures_apart(e, AdapterError::PeripheralUnsupported);
    codes_tell_failures_apart(e, AdapterError::IosUsbUnavailable(Seq::empty()));
    codes_tell_failures_apart(e, AdapterError::Failed(Seq::empty()));
    codes_tell_failures_apart(e, AdapterError::ControlInactive(Seq::empty()));
    codes_tell_failures_apart(e, AdapterError::Busy(Seq::empty()));
}

/// A failure is shown by its text behind what kind of failure it is, so that nothing of the text
/// is lost.
pub proof fn failures_show_their_text(e: AdapterError<Seq<char>>, s: Seq<char>)
    requires
        ({
            ||| e == AdapterError::DependencyMissing(s)
            ||| e == AdapterError::UnsupportedPlatform(s)
            ||| e == AdapterError::PendingRealDeviceValidation(s)
            ||| e == AdapterError::IosUsbUnavailable(s)
            ||| e == AdapterError::Failed(s)
            ||| e == AdapterError::ControlInactive(s)
            ||| e == AdapterError::Busy(s)
        }),
    ensures
        e.message_text().len() > s.len(),
        e.message_text().skip(e.message_text().len() - s.len()) == s,
{
    reveal_strlit("依赖缺失：");
    reveal_strlit("当前平台不支持：");
    reveal_strlit("该能力尚未在真实设备验证：");
    reveal_strlit("iOS USB/WDA 控制不可用：");
    reveal_strlit("操作失败：");
    reveal_strlit("控制未激活：");
    reveal_strlit("会话正忙或有未完成操作：");
    assert(e.message_text().skip(e.message_text().len() - s.len()) =~= s);
}

/// How a finished process ended and what it printed.
#[derive(Debug)]
pub struct ToolRun<T = String> {
    pub success: bool,
    /// The exit status in words.
    pub status: T,
    pub stdout: T,
    pub stderr: T,
}

impl View for ToolRun<String> {
    type V = ToolRun<Seq<char>>;

    open spec fn view(&self) -> ToolRun<Seq<char>> {
        ToolRun {
            success: self.success,
            status: self.status@,
            stdout: self.stdout@,
            stderr: self.stderr@,
        }
    }
}

/// A finished run, by the bytes that the tool printed.
pub fn tool_run(success: bool, status: &str, stdout: &[u8], stderr: &[u8]) -> (r: ToolRun)
    ensures
        r@ == (ToolRun {
            success,
            status: status@,
            stdout: text::lossy_text(stdout@),
            stderr: text::lossy_text(stderr@),
        }),
{
    ToolRun {
        success,
        status: text::own(status),
        stdout: text::from_utf8_lossy(stdout),
        stderr: text::from_utf8_lossy(stderr),
    }
}

/// A line without the white space around it; nothing of a blank line.
pub open spec fn inked_line(line: Seq<char>) -> Option<Seq<char>> {
    if text::trimmed(line).len() == 0 {
        None
    } else {
        Some(text::trimmed(line))
    }
}

/// The lines of a text that are not blank, without the white space around them.
pub open spec fn inked_lines(s: Seq<char>) -> Seq<Seq<char>> {
    seqs::collect(text::lines_of(s), |l: Seq<char>| inked_line(l))
}

/// The lines of a text that are not blank, without the white space around them.
pub fn non_blank_lines(s: &str) -> (r: Vec<String>)
    ensures
        text::texts(r@) == inked_lines(s@),
{
    let all = text::lines(s);
    let ghost f = |l: Seq<char>| inked_line(l);
    let ghost lines = text::lines_of(s@);
    let mut out: Vec<String> = Vec::new();
    let mut i: usize = 0;
    proof {
        seqs::lemma_collect_ends(lines, f);
        assert(text::texts(out@) =~= Seq::<Seq<char>>::empty());
    }
    while i < all.len()
        invariant
            i <= all@.len(),
            text::texts(all@) == lines,
            lines == text::lines_of(s@),
            f == (|l: Seq<char>| inked_line(l)),
            text::texts(out@) == seqs::collect(lines.take(i as int), f),
        decreases all@.len() - i,
    {
        let t = text::trim(all[i].as_str());
        let ghost before = out@;
        proof {
            seqs::lemma_collect_step(lines, f, i as int);
            assert(lines[i as int] == all@[i as int]@);
        }
        if !t.as_str().is_empty() {
            out.push(t);
            assert(text::texts(out@) =~= text::texts(before).push(t@));
        }
        i = i + 1;
    }
    proof {
        seqs::lemma_collect_ends(lines, f);
    }
    out
}

/// The first three lines of a text that are not blank, joined by `；`.
pub open spec fn digest_of(s: Seq<char>) -> Seq<char> {
    let lines = inked_lines(s);
    text::joined(
        if lines.len() <= 3 {
            lines
        } else {
            lines.take(3)
        },
        "；"@,
    )
}

/// The first three lines of a text that are not blank, joined by `；`.
pub fn digest(s: &str) -> (r: String)
    ensures
        r@ == digest_of(s@),
{
    let mut lines = non_blank_lines(s);
    let ghost all = text::texts(lines@);
    if lines.len() > 3 {
        lines.truncate(3);
        assert(text::texts(lines@) =~= all.take(3));
    }
    text::join(&lines, "；")
}

/// What a failed run is reported with: `what` and the status, and the detail where there is
/// one.
pub open spec fn run_failure(
    before: Seq<char>,
    status: Seq<char>,
    after: Seq<char>,
    detail: Seq<char>,
) -> AdapterError<Seq<char>> {
    if detail.len() == 0 {
        AdapterError::Failed(before + status + after)
    } else {
        AdapterError::Failed(before + status + after + "："@ + detail)
    }
}

/// Reports a failed run.
pub fn report_run_failure(before: &str, status: &str, after: &str, detail: &str) -> (r: AdapterError)
    ensures
        r@ == run_failure(before@, status@, after@, detail@),
{
    if detail.is_empty() {
        AdapterError::Failed(text::cat3(before, status, after))
    } else {
        AdapterError::Failed(text::cat5(before, status, after, "：", detail))
    }
}

/// The platform that the program runs on, as far as the library distinguishes it.
#[derive(Debug, Clone, Copy, PartialEq, Eq, Structural)]
pub enum HostPlatform {
    Windows,
    MacOs,
    Other,
}

/// The file name of an executable on a platform.
pub open spec fn executable_name(name: Seq<char>, platform: HostPlatform) -> Seq<char> {
    if platform is Windows {
        name + ".exe"@
    } else {
        name
    }
}

/// The file name of an executable on a platform.
pub fn executable(name: &str, platform: HostPlatform) -> (r: String)
    ensures
        r@ == executable_name(name@, platform),
{
    match platform {
        HostPlatform::Windows => text::cat2(name, ".exe"),
        _ => text::own(name),
    }
}

/// Whether a character stands between the parts of a path.
pub open spec fn is_separator(platform: HostPlatform, c: char) -> bool {
    c == '/' || platform is Windows && c == '\\'
}

/// What stands between the parts of a path that are joined.
pub open spec fn separator(platform: HostPlatform) -> Seq<char> {
    if platform is Windows {
        "\\"@
    } else {
        "/"@
    }
}

/// A relative path below a directory, with one separator of the platform between the two.
pub open spec fn below(platform: HostPlatform, dir: Seq<char>, rest: Seq<char>) -> Seq<char> {
    if dir.len() == 0 {
        rest
    } else if is_separator(platform, dir.last()) {
        dir + rest
    } else {
        dir + separator(platform) + rest
    }
}

/// A relative path below a directory, with one separator of the platform between the two.
pub fn path_below(platform: HostPlatform, dir: &str, rest: &str) -> (r: String)
    ensures
        r@ == below(platform, dir@, rest@),
{
    let v = text::chars_of(dir);
    let on_windows = matches!(platform, HostPlatform::Windows);
    if v.len() == 0 {
        return text::own(rest);
    }
    let last = v[v.len() - 1];
    if last == '/' || on_windows && last == '\\' {
        text::cat2(dir, rest)
    } else if on_windows {
        text::cat3(dir, "\\", rest)
    } else {
        text::cat3(dir, "/", rest)
    }
}

/// A path below a directory begins with the directory and ends in the path, with exactly one
/// separator between the two; an empty directory adds nothing. An executable has its extension on
/// Windows only.
pub proof fn paths_hold_both_parts(platform: HostPlatform, dir: Seq<char>, rest: Seq<char>)
    ensures
        ({
            let p = below(platform, dir, rest);
            let n = dir.len() as int;
            &&& dir.len() == 0 ==> p == rest
            &&& dir.len() > 0 ==> p.take(n) == dir
            &&& dir.len() > 0 && (dir.last() == '/' || (platform is Windows && dir.last() == '\\'))
                ==> p.skip(n) == rest
            &&& dir.len() > 0 && dir.last() != '/' && !(platform is Windows && dir.last() == '\\')
                ==> p.skip(n + 1) == rest && p[n] == if platform is Windows {
                '\\'
            } else {
                '/'
            }
        }),
        platform is Windows ==> executable_name(rest, platform) == rest + seq!['.', 'e', 'x', 'e'],
        !(platform is Windows) ==> executable_name(rest, platform) == rest,
{
    reveal_strlit("\\");
    reveal_strlit("/");
    reveal_strlit(".exe");
    let p = below(platform, dir, rest);
    let n = dir.len() as int;
    assert(".exe"@ =~= seq!['.', 'e', 'x', 'e']);
    if n > 0 {
        assert(p.take(n) =~= dir);
        if is_separator(platform, dir.last()) {
            assert(p.skip(n) =~= rest);
        } else {
            assert(p.skip(n + 1) =~= rest);
        }
    }
}

/// A failure says first what kind of failure it is.
pub proof fn failures_begin_with_their_kind(e: AdapterError<Seq<char>>)
    ensures
        e is DependencyMissing ==> "依赖缺失："@.is_prefix_of(e.message_text()),
        e is UnsupportedPlatform ==> "当前平台不支持："@.is_prefix_of(e.message_text()),
        e is PendingRealDeviceValidation ==> "该能力尚未在真实设备验证："@.is_prefix_of(
            e.message_text(),
        ),
        e is PeripheralUnsupported ==> "蓝牙适配器"@.is_prefix_of(e.message_text()),
        e is IosUsbUnavailable ==> "iOS USB/WDA 控制不可用："@.is_prefix_of(e.message_text()),
        e is Failed ==> "操作失败："@.is_prefix_of(e.message_text()),
        e is ControlInactive ==> "控制未激活："@.is_prefix_of(e.message_text()),
        e is Busy ==> "会话正忙或有未完成操作："@.is_prefix_of(e.message_text()),
{
    reveal_strlit("蓝牙适配器");
    reveal_strlit("蓝牙适配器不支持 LE Peripheral 角色");
}

/// Of what a program printed, the first three lines that are not blank are shown.
pub proof fn the_first_lines_are_shown(s: Seq<char>)
    ensures
        inked_lines(s).len() <= 3 ==> digest_of(s) == text::joined(inked_lines(s), "；"@),
        inked_lines(s).len() > 3 ==> digest_of(s) == text::joined(
            seq![inked_lines(s)[0], inked_lines(s)[1], inked_lines(s)[2]],
            "；"@,
        ),
{
    let l = inked_lines(s);
    if l.len() > 3 {
        assert(l.take(3) =~= seq![l[0], l[1], l[2]]);
    }
}

} // verus!
