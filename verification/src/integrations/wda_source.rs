//! The tools that build, install and start the automation server: their arguments, what is
//! kept of what they print, and how its source is fetched.
use vstd::prelude::*;

use crate::integrations;
use crate::integrations::adb;
use crate::integrations::usb_devices;
use crate::integrations::{path_below, HostPlatform, ToolRun};
use crate::json;
use crate::json::{text_value, Json, JsonValue};
use crate::text;

verus! {

/// The version of the source that is fetched.
pub const WDA_SOURCE_VERSION: &'static str = "16.12.3";

/// Where the source is fetched from.
pub const WDA_SOURCE_URL: &'static str = "https://registry.npmjs.org/appium-webdriveragent/-/appium-webdriveragent-16.12.3.tgz";

// ---------------------------------------------------------------------------
// What tools print
// ---------------------------------------------------------------------------

/// A text in which the identifier of a phone is hidden.
pub open spec fn hidden(s: Seq<char>, raw_udid: Seq<char>) -> Seq<char> {
    if raw_udid.len() == 0 {
        s
    } else {
        text::replaced(s, raw_udid, "<已隐藏设备标识>"@)
    }
}

/// Hides the identifier of a phone in a text.
pub fn hide_udid(s: &str, raw_udid: &str) -> (r: String)
    ensures
        r@ == hidden(s@, raw_udid@),
{
    if raw_udid.is_empty() {
        text::own(s)
    } else {
        text::replace(s, raw_udid, "<已隐藏设备标识>")
    }
}

/// What a run printed: its errors, or its output where those are blank.
pub open spec fn printed(run: ToolRun<Seq<char>>) -> Seq<char> {
    if text::trimmed(run.stderr).len() > 0 {
        run.stderr
    } else {
        run.stdout
    }
}

/// The last `n` of some lines.
pub open spec fn last_lines(lines: Seq<Seq<char>>, n: int) -> Seq<Seq<char>> {
    if lines.len() <= n {
        lines
    } else {
        lines.skip(lines.len() - n)
    }
}

/// What is shown of a run: the last `n` lines that are not blank, cut after `limit`
/// characters, with the identifier of the phone hidden.
pub open spec fn run_summary(
    run: ToolRun<Seq<char>>,
    raw_udid: Seq<char>,
    n: int,
    limit: int,
) -> Seq<char> {
    let s = text::joined(
        last_lines(integrations::inked_lines(hidden(printed(run), raw_udid)), n),
        "；"@,
    );
    if s.len() == 0 {
        "没有返回可读错误"@
    } else {
        text::first_chars(s, limit)
    }
}

fn summarize_run(run: &ToolRun, raw_udid: &str, n: usize, limit: usize) -> (r: String)
    ensures
        r@ == run_summary(run@, raw_udid@, n as int, limit as int),
{
    let said = if text::trim(run.stderr.as_str()).as_str().is_empty() {
        hide_udid(run.stdout.as_str(), raw_udid)
    } else {
        hide_udid(run.stderr.as_str(), raw_udid)
    };
    let all = integrations::non_blank_lines(said.as_str());
    let count: usize = all.len();
    let ghost lines = text::texts(all@);
    let mut kept: Vec<String> = Vec::new();
    let start: usize = if count <= n {
        0
    } else {
        count - n
    };
    let mut i: usize = start;
    assert(text::texts(kept@) =~= lines.subrange(start as int, start as int));
    while i < count
        invariant
            start <= i <= count,
            count == all@.len(),
            lines == text::texts(all@),
            text::texts(kept@) == lines.subrange(start as int, i as int),
        decreases count - i,
    {
        let ghost before = text::texts(kept@);
        adb::push_text(&mut kept, all[i].as_str());
        assert(lines.subrange(start as int, i + 1) =~= before.push(lines[i as int]));
        i = i + 1;
    }
    assert(lines.subrange(start as int, count as int) =~= last_lines(lines, n as int));
    let s = text::join(&kept, "；");
    if s.as_str().is_empty() {
        text::own("没有返回可读错误")
    } else {
        text::take_chars(s.as_str(), limit)
    }
}

/// What is shown of a run of a build tool.
pub fn summarize_output(run: &ToolRun) -> (r: String)
    ensures
        r@ == run_summary(run@, ""@, 4, 1200),
{
    summarize_run(run, "", 4, 1200)
}

/// What is shown of a run of a tool that was given the identifier of a phone.
pub fn output_detail(run: &ToolRun, raw_udid: &str) -> (r: String)
    ensures
        r@ == run_summary(run@, raw_udid@, 5, 1800),
{
    summarize_run(run, raw_udid, 5, 1800)
}

/// What a failed run is reported with.
pub open spec fn output_failure(command: Seq<char>, run: ToolRun<Seq<char>>) -> Seq<char> {
    command + " 失败（"@ + run.status + "）："@ + run_summary(run, ""@, 4, 1200)
}

/// What a failed run is reported with.
pub fn format_output_error(command: &str, run: &ToolRun) -> (r: String)
    ensures
        r@ == output_failure(command@, run@),
{
    text::cat5(
        command,
        " 失败（",
        run.status.as_str(),
        "）：",
        summarize_output(run).as_str(),
    )
}

/// The last bytes of a log.
pub open spec fn log_end(b: Seq<u8>) -> Seq<u8> {
    if b.len() <= 8192 {
        b
    } else {
        b.skip(b.len() - 8192)
    }
}

/// What is shown of a log whose last bytes read `s`: at most `limit` characters, with the
/// identifier of the phone hidden.
pub open spec fn shown_log(s: Seq<char>, raw_udid: Seq<char>, limit: int) -> Seq<char> {
    text::first_chars(text::trimmed(hidden(s, raw_udid)), limit)
}

/// What is shown of a log whose last bytes read `s`.
pub fn show_log(s: &str, raw_udid: &str, limit: usize) -> (r: String)
    ensures
        r@ == shown_log(s@, raw_udid@, limit as int),
{
    let h = hide_udid(s, raw_udid);
    text::take_chars(text::trim(h.as_str()).as_str(), limit)
}

fn tail_text(b: &Vec<u8>) -> (r: String)
    ensures
        r@ == text::lossy_text(log_end(b@)),
{
    let n: usize = b.len();
    let start: usize = if n <= 8192 {
        0
    } else {
        n - 8192
    };
    let end = vstd::slice::slice_subrange(b.as_slice(), start, n);
    assert(end@ =~= log_end(b@));
    text::from_utf8_lossy(end)
}

/// What is shown of the log of a build; `None` stands for a log that cannot be read.
pub fn redacted_tail(log: &Option<Vec<u8>>, raw_udid: &str) -> (r: String)
    ensures
        r@ == (match log {
            Some(b) => shown_log(text::lossy_text(log_end(b@)), raw_udid@, 2400),
            None => "没有读取到 xcodebuild 日志；请打开 Xcode 查看签名错误"@,
        }),
{
    match log {
        Some(b) => show_log(tail_text(b).as_str(), raw_udid, 2400),
        None => text::own("没有读取到 xcodebuild 日志；请打开 Xcode 查看签名错误"),
    }
}

/// What is shown of the log of a runner; `None` stands for a log that cannot be read.
pub fn log_tail(log: &Option<Vec<u8>>, raw_udid: &str) -> (r: String)
    ensures
        r@ == (match log {
            Some(b) => shown_log(text::lossy_text(log_end(b@)), raw_udid@, 1800),
            None => "没有读取到 go-ios 日志"@,
        }),
{
    match log {
        Some(b) => show_log(tail_text(b).as_str(), raw_udid, 1800),
        None => text::own("没有读取到 go-ios 日志"),
    }
}

// ---------------------------------------------------------------------------
// Build tool
// ---------------------------------------------------------------------------

/// What the build tool says of its version.
pub open spec fn version_of(
    present: bool,
    run: Result<ToolRun<Seq<char>>, Seq<char>>,
) -> Result<Seq<char>, Seq<char>> {
    if !present {
        Err("未找到 /usr/bin/xcodebuild，请安装 Xcode 并在首次启动时完成组件安装"@)
    } else {
        match run {
            Err(why) => Err("执行 xcodebuild -version 失败："@ + why),
            Ok(run) => if !run.success {
                Err(output_failure("xcodebuild -version"@, run))
            } else {
                let lines = text::lines_of(run.stdout);
                let version = text::joined(
                    if lines.len() <= 2 {
                        lines
                    } else {
                        lines.take(2)
                    },
                    " "@,
                );
                if version.len() == 0 {
                    Err("Xcode 已找到，但没有返回版本信息"@)
                } else {
                    Ok(version)
                }
            },
        }
    }
}

pub open spec fn run_view(run: Result<ToolRun, String>) -> Result<ToolRun<Seq<char>>, Seq<char>> {
    match run {
        Ok(r) => Ok(r@),
        Err(e) => Err(e@),
    }
}

pub open spec fn words_view(r: Result<String, String>) -> Result<Seq<char>, Seq<char>> {
    match r {
        Ok(s) => Ok(s@),
        Err(e) => Err(e@),
    }
}

/// What the build tool says of its version, by a run of it.
pub fn xcode_version(present: bool, run: Result<ToolRun, String>) -> (r: Result<String, String>)
    ensures
        words_view(r) == version_of(present, run_view(run)),
{
    if !present {
        return Err(
            text::own("未找到 /usr/bin/xcodebuild，请安装 Xcode 并在首次启动时完成组件安装"),
        );
    }
    match run {
        Err(why) => Err(text::cat2("执行 xcodebuild -version 失败：", why.as_str())),
        Ok(run) => {
            if !run.success {
                return Err(format_output_error("xcodebuild -version", &run));
            }
            let mut lines = text::lines(run.stdout.as_str());
            let ghost all = text::texts(lines@);
            if lines.len() > 2 {
                lines.truncate(2);
                assert(text::texts(lines@) =~= all.take(2));
            }
            let version = text::join(&lines, " ");
            if version.as_str().is_empty() {
                Err(text::own("Xcode 已找到，但没有返回版本信息"))
            } else {
                Ok(version)
            }
        },
    }
}

/// The arguments of the build that signs, installs and starts the server.
pub fn xcodebuild_arguments(project_name: &str, raw_udid: &str, derived_data: &str) -> (r: Vec<
    String,
>)
    ensures
        text::texts(r@) == seq![
            "-project"@,
            project_name@,
            "-scheme"@,
            "WebDriverAgentRunner"@,
            "-destination"@,
            "id="@ + raw_udid@,
            "-derivedDataPath"@,
            derived_data@,
            "-allowProvisioningUpdates"@,
            "-allowProvisioningDeviceRegistration"@,
            "CODE_SIGN_STYLE=Automatic"@,
            "COMPILER_INDEX_STORE_ENABLE=NO"@,
            "test"@,
        ],
{
    let destination = text::cat2("id=", raw_udid);
    let parts = [
        "-project",
        project_name,
        "-scheme",
        "WebDriverAgentRunner",
        "-destination",
        destination.as_str(),
        "-derivedDataPath",
        derived_data,
        "-allowProvisioningUpdates",
        "-allowProvisioningDeviceRegistration",
        "CODE_SIGN_STYLE=Automatic",
        "COMPILER_INDEX_STORE_ENABLE=NO",
        "test",
    ];
    let r = text::own_all(&parts);
    assert(text::texts(r@) =~= seq![
        "-project"@,
        project_name@,
        "-scheme"@,
        "WebDriverAgentRunner"@,
        "-destination"@,
        "id="@ + raw_udid@,
        "-derivedDataPath"@,
        derived_data@,
        "-allowProvisioningUpdates"@,
        "-allowProvisioningDeviceRegistration"@,
        "CODE_SIGN_STYLE=Automatic"@,
        "COMPILER_INDEX_STORE_ENABLE=NO"@,
        "test"@,
    ]);
    r
}

/// Whether a text is the identifier of a development team: at most 32 letters and digits.
pub open spec fn is_team(s: Seq<char>) -> bool {
    0 < s.len() <= 32 && all_alphanumeric(s)
}

pub open spec fn all_alphanumeric(s: Seq<char>) -> bool {
    forall|i: int| 0 <= i < s.len() ==> text::is_alphanumeric(#[trigger] s[i])
}

proof fn lemma_ascii_width(s: Seq<char>)
    requires
        forall|i: int| 0 <= i < s.len() ==> usb_devices::id_char(#[trigger] s[i]),
    ensures
        text::byte_length(s) == s.len(),
    decreases s.len(),
{
    if s.len() > 0 {
        let rest = s.drop_first();
        assert forall|i: int| 0 <= i < rest.len() implies usb_devices::id_char(
            #[trigger] rest[i],
        ) by {
            assert(rest[i] == s[i + 1]);
        }
        lemma_ascii_width(rest);
        assert(usb_devices::id_char(s[0]));
    }
}

/// The development team that is configured, where its identifier is well formed.
pub fn development_team(configured: &Option<String>) -> (r: Option<String>)
    ensures
        text::opt_text(r) == (match text::opt_text(*configured) {
            Some(t) => if is_team(t) {
                Some(t)
            } else {
                None
            },
            None => None,
        }),
{
    match configured {
        None => None,
        Some(t) => {
            let v = text::chars_of(t.as_str());
            let n: usize = v.len();
            let mut i: usize = 0;
            while i < n
                invariant
                    i <= n,
                    n == v@.len(),
                    v@ == t@,
                    configured == Some(*t),
                    forall|j: int| 0 <= j < i ==> text::is_alphanumeric(#[trigger] t@[j]),
                decreases n - i,
            {
                if !text::alphanumeric(v[i]) {
                    assert(!text::is_alphanumeric(t@[i as int]));
                    return None;
                }
                i = i + 1;
            }
            proof {
                assert forall|k: int| 0 <= k < t@.len() implies usb_devices::id_char(
                    #[trigger] t@[k],
                ) by {
                    assert(text::is_alphanumeric(t@[k]));
                }
                lemma_ascii_width(t@);
            }
            let bytes: usize = text::byte_len(t.as_str());
            if bytes > 0 && bytes <= 32 {
                Some(text::own(t.as_str()))
            } else {
                None
            }
        },
    }
}

// ---------------------------------------------------------------------------
// Installing and starting the signed server
// ---------------------------------------------------------------------------

/// The arguments that install the server on a phone.
pub fn install_arguments(raw_udid: &str, ipa: &str) -> (r: Vec<String>)
    ensures
        text::texts(r@) == seq!["-u"@, raw_udid@, "install"@, ipa@],
{
    let parts = ["-u", raw_udid, "install", ipa];
    let r = text::own_all(&parts);
    assert(text::texts(r@) =~= seq!["-u"@, raw_udid@, "install"@, ipa@]);
    r
}

/// Why an installation failed; nothing where it did not.
pub open spec fn install_failure(
    run: Result<ToolRun<Seq<char>>, Seq<char>>,
    raw_udid: Seq<char>,
) -> Option<Seq<char>> {
    match run {
        Err(why) => Some("启动 ideviceinstaller 失败："@ + why),
        Ok(run) => if run.success {
            None
        } else {
            Some("WDA IPA 安装失败："@ + run_summary(run, raw_udid, 5, 1800))
        },
    }
}

/// Why an installation failed; nothing where it did not.
pub fn install(run: Result<ToolRun, String>, raw_udid: &str) -> (r: Option<String>)
    ensures
        text::opt_text(r) == install_failure(run_view(run), raw_udid@),
{
    match run {
        Err(why) => Some(text::cat2("启动 ideviceinstaller 失败：", why.as_str())),
        Ok(run) => if run.success {
            None
        } else {
            Some(text::cat2("WDA IPA 安装失败：", output_detail(&run, raw_udid).as_str()))
        },
    }
}

/// The arguments that start the server on a phone.
pub fn runner_arguments(raw_udid: &str, bundle_id: &str, host_port: u16) -> (r: Vec<String>)
    ensures
        text::texts(r@) == seq![
            "ui"@,
            "run"@,
            "wda"@,
            "--udid="@ + raw_udid@,
            "--bundleid="@ + bundle_id@,
            "--test-runner-bundleid="@ + bundle_id@,
            "--xctest-config=WebDriverAgentRunner.xctest"@,
            "--host-port="@ + text::dec(host_port as nat),
        ],
{
    let a = text::cat2("--udid=", raw_udid);
    let b = text::cat2("--bundleid=", bundle_id);
    let c = text::cat2("--test-runner-bundleid=", bundle_id);
    let d = text::cat2("--host-port=", text::decimal(host_port as u64).as_str());
    let parts = [
        "ui",
        "run",
        "wda",
        a.as_str(),
        b.as_str(),
        c.as_str(),
        "--xctest-config=WebDriverAgentRunner.xctest",
        d.as_str(),
    ];
    let r = text::own_all(&parts);
    assert(text::texts(r@) =~= seq![
        "ui"@,
        "run"@,
        "wda"@,
        "--udid="@ + raw_udid@,
        "--bundleid="@ + bundle_id@,
        "--test-runner-bundleid="@ + bundle_id@,
        "--xctest-config=WebDriverAgentRunner.xctest"@,
        "--host-port="@ + text::dec(host_port as nat),
    ]);
    r
}

/// Whether a text is a bundle identifier: at most 255 letters, digits, `.`, `-` and `_`.
pub open spec fn is_bundle_id(s: Seq<char>) -> bool {
    &&& 0 < s.len() <= 255
    &&& forall|i: int| 0 <= i < s.len() ==> usb_devices::id_char(#[trigger] s[i])
}

/// Whether a text is a bundle identifier.
pub fn valid_bundle_id(value: &str) -> (r: bool)
    ensures
        r == is_bundle_id(value@),
{
    let v = text::chars_of(value);
    if !usb_devices::all_id_chars(&v) {
        return false;
    }
    proof {
        lemma_ascii_width(value@);
    }
    let n: usize = text::byte_len(value);
    n > 0 && n <= 255
}

/// The bundle identifier that a manifest names.
pub open spec fn bundle_in(manifest: Option<Json>) -> Option<Seq<char>> {
    match json::get_in(manifest, "bundleId"@) {
        Some(Json::Text(s)) => if is_bundle_id(text::trimmed(s)) {
            Some(text::trimmed(s))
        } else {
            None
        },
        _ => None,
    }
}

/// The bundle identifier that a manifest names.
pub fn bundle_id_of(manifest: Option<JsonValue>) -> (r: Option<String>)
    ensures
        text::opt_text(r) == bundle_in(
            match manifest {
                Some(v) => Some(v@),
                None => None,
            },
        ),
{
    match &manifest {
        None => None,
        Some(v) => match v.get("bundleId") {
            Some(JsonValue::Text(s)) => {
                let t = text::trim(s.as_str());
                if valid_bundle_id(t.as_str()) {
                    Some(t)
                } else {
                    None
                }
            },
            _ => None,
        },
    }
}

/// The bundle identifier that the text of a manifest names.
pub fn bundle_id_from_manifest(manifest: &str) -> (r: Option<String>)
    ensures
        text::opt_text(r) == bundle_in(json::json_of_text(manifest@)),
{
    bundle_id_of(json::parse_json(manifest))
}

/// The first bundle identifier that some manifests name; those that could not be read name
/// none.
pub open spec fn first_bundle(manifests: Seq<Option<String>>, from: int) -> Seq<char>
    decreases manifests.len() - from,
{
    if from < 0 || from >= manifests.len() {
        "com.facebook.WebDriverAgentRunner.xctrunner"@
    } else {
        let here = match manifests[from] {
            Some(s) => bundle_in(json::json_of_text(s@)),
            None => None,
        };
        match here {
            Some(id) => id,
            None => first_bundle(manifests, from + 1),
        }
    }
}

/// The bundle identifier of the server.
pub open spec fn chosen_bundle(
    configured: Option<Seq<char>>,
    manifests: Seq<Option<String>>,
) -> Seq<char> {
    match configured {
        Some(c) => if is_bundle_id(text::trimmed(c)) {
            text::trimmed(c)
        } else {
            first_bundle(manifests, 0)
        },
        None => first_bundle(manifests, 0),
    }
}

/// The bundle identifier of the server: the one that is configured, else the one of a
/// manifest, else the common one.
pub fn wda_bundle_id(configured: &Option<String>, manifests: &Vec<Option<String>>) -> (r: String)
    ensures
        r@ == chosen_bundle(text::opt_text(*configured), manifests@),
{
    match configured {
        Some(c) => {
            let t = text::trim(c.as_str());
            if valid_bundle_id(t.as_str()) {
                return t;
            }
        },
        None => {},
    }
    let mut i: usize = 0;
    while i < manifests.len()
        invariant
            i <= manifests@.len(),
            first_bundle(manifests@, i as int) == first_bundle(manifests@, 0),
            match text::opt_text(*configured) {
                Some(c) => !is_bundle_id(text::trimmed(c)),
                None => true,
            },
        decreases manifests@.len() - i,
    {
        match &manifests[i] {
            Some(s) => match bundle_id_from_manifest(s.as_str()) {
                Some(id) => {
                    return id;
                },
                None => {},
            },
            None => {},
        }
        i = i + 1;
    }
    text::own("com.facebook.WebDriverAgentRunner.xctrunner")
}

/// Where the manifest of the server may be.
pub fn manifest_candidates(
    platform: HostPlatform,
    resources: &str,
    app_data: &str,
) -> (r: Vec<String>)
    ensures
        text::texts(r@) == seq![
            integrations::below(platform, resources@, "binaries/ios-usb/WebDriverAgentRunner.json"@),
            integrations::below(platform, resources@, "binaries/ios-wda/WebDriverAgentRunner.json"@),
            integrations::below(platform, app_data@, "wda/WebDriverAgentRunner.json"@),
        ],
{
    let a = path_below(platform, resources, "binaries/ios-usb/WebDriverAgentRunner.json");
    let b = path_below(platform, resources, "binaries/ios-wda/WebDriverAgentRunner.json");
    let c = path_below(platform, app_data, "wda/WebDriverAgentRunner.json");
    let mut out: Vec<String> = Vec::new();
    out.push(a);
    out.push(b);
    out.push(c);
    assert(text::texts(out@) =~= seq![a@, b@, c@]);
    out
}

/// Where the signed server may be; the first file is used.
pub fn signed_ipa_candidates(
    platform: HostPlatform,
    configured: &Option<String>,
    resources: &str,
    app_data: &str,
) -> (r: Vec<String>)
    ensures
        text::texts(r@) == (match text::opt_text(*configured) {
            Some(p) => seq![p],
            None => Seq::empty(),
        }) + seq![
            integrations::below(platform, resources@, "binaries/ios-usb/WebDriverAgentRunner.ipa"@),
            integrations::below(platform, resources@, "binaries/ios-wda/WebDriverAgentRunner.ipa"@),
            integrations::below(platform, app_data@, "wda/WebDriverAgentRunner.ipa"@),
        ],
{
    let a = path_below(platform, resources, "binaries/ios-usb/WebDriverAgentRunner.ipa");
    let b = path_below(platform, resources, "binaries/ios-wda/WebDriverAgentRunner.ipa");
    let c = path_below(platform, app_data, "wda/WebDriverAgentRunner.ipa");
    let mut out: Vec<String> = Vec::new();
    match configured {
        Some(p) => {
            out.push(text::own(p.as_str()));
        },
        None => {},
    }
    out.push(a);
    out.push(b);
    out.push(c);
    assert(text::texts(out@) =~= (match text::opt_text(*configured) {
        Some(p) => seq![p],
        None => Seq::empty(),
    }) + seq![a@, b@, c@]);
    out
}

// ---------------------------------------------------------------------------
// The source
// ---------------------------------------------------------------------------

/// The directory of the source that was fetched.
pub open spec fn source_dir(platform: HostPlatform, app_data: Seq<char>) -> Seq<char> {
    integrations::below(
        platform,
        integrations::below(platform, app_data, "wda-source"@),
        "appium-webdriveragent-"@ + WDA_SOURCE_VERSION@,
    )
}

/// The directory of the source that was fetched.
pub fn source_target(platform: HostPlatform, app_data: &str) -> (r: String)
    ensures
        r@ == source_dir(platform, app_data@),
{
    let root = path_below(platform, app_data, "wda-source");
    let name = text::cat2("appium-webdriveragent-", WDA_SOURCE_VERSION);
    path_below(platform, root.as_str(), name.as_str())
}

/// Where the project of the server may be; the first one that is a project is used.
pub fn project_candidates(
    platform: HostPlatform,
    configured: &Option<String>,
    resources: &str,
    app_data: &str,
    current_dir: &str,
) -> (r: Vec<String>)
    ensures
        text::texts(r@) == (match text::opt_text(*configured) {
            Some(p) => seq![p],
            None => Seq::empty(),
        }) + seq![
            integrations::below(platform, resources@, "ios-wda/WebDriverAgent.xcodeproj"@),
            integrations::below(platform, resources@, "binaries/ios-usb/WebDriverAgent.xcodeproj"@),
            integrations::below(
                platform,
                source_dir(platform, app_data@),
                "WebDriverAgent.xcodeproj"@,
            ),
            integrations::below(
                platform,
                current_dir@,
                "node_modules/appium-webdriveragent/WebDriverAgent.xcodeproj"@,
            ),
        ],
{
    let a = path_below(platform, resources, "ios-wda/WebDriverAgent.xcodeproj");
    let b = path_below(platform, resources, "binaries/ios-usb/WebDriverAgent.xcodeproj");
    let source = source_target(platform, app_data);
    let c = path_below(platform, source.as_str(), "WebDriverAgent.xcodeproj");
    let d = path_below(
        platform,
        current_dir,
        "node_modules/appium-webdriveragent/WebDriverAgent.xcodeproj",
    );
    let mut out: Vec<String> = Vec::new();
    match configured {
        Some(p) => {
            out.push(text::own(p.as_str()));
        },
        None => {},
    }
    out.push(a);
    out.push(b);
    out.push(c);
    out.push(d);
    assert(text::texts(out@) =~= (match text::opt_text(*configured) {
        Some(p) => seq![p],
        None => Seq::empty(),
    }) + seq![a@, b@, c@, d@]);
    out
}

/// Whether a path is a project: a directory with a name that says so.
pub fn valid_project(is_dir: bool, file_name: &str) -> (r: bool)
    ensures
        r == (is_dir && text::ends_in(file_name@, ".xcodeproj"@)),
{
    is_dir && text::ends_with(file_name, ".xcodeproj")
}

/// The arguments that fetch the source.
pub fn download_arguments(archive: &str) -> (r: Vec<String>)
    ensures
        text::texts(r@) == seq![
            "--fail"@,
            "--location"@,
            "--silent"@,
            "--show-error"@,
            "--retry"@,
            "2"@,
            "--connect-timeout"@,
            "10"@,
            "--max-time"@,
            "180"@,
            "--output"@,
            archive@,
            WDA_SOURCE_URL@,
        ],
{
    let parts = [
        "--fail",
        "--location",
        "--silent",
        "--show-error",
        "--retry",
        "2",
        "--connect-timeout",
        "10",
        "--max-time",
        "180",
        "--output",
        archive,
        WDA_SOURCE_URL,
    ];
    let r = text::own_all(&parts);
    assert(text::texts(r@) =~= seq![
        "--fail"@,
        "--location"@,
        "--silent"@,
        "--show-error"@,
        "--retry"@,
        "2"@,
        "--connect-timeout"@,
        "10"@,
        "--max-time"@,
        "180"@,
        "--output"@,
        archive@,
        WDA_SOURCE_URL@,
    ]);
    r
}

/// The arguments that unpack the source.
pub fn extract_arguments(archive: &str, staging: &str) -> (r: Vec<String>)
    ensures
        text::texts(r@) == seq!["-xzf"@, archive@, "-C"@, staging@],
{
    let parts = ["-xzf", archive, "-C", staging];
    let r = text::own_all(&parts);
    assert(text::texts(r@) =~= seq!["-xzf"@, archive@, "-C"@, staging@]);
    r
}

/// How far the fetching of the source has come: what is to be done next.
#[derive(Debug)]
pub enum SourceStage<T = String> {
    /// See whether the source is there already.
    LookForProject,
    MakeRoot,
    /// See whether an earlier attempt left something.
    LookForStaging,
    ClearStaging,
    MakeStaging,
    LookForCurl,
    Download,
    LookForTar,
    Extract,
    /// See whether what was fetched is the project.
    CheckPackage,
    /// See whether there is an older source.
    LookForOld,
    ClearOld,
    MoveIn,
    /// The source is there; `fetched` where it came now.
    Ready { fetched: bool },
    Failed(T),
}

impl View for SourceStage<String> {
    type V = SourceStage<Seq<char>>;

    open spec fn view(&self) -> SourceStage<Seq<char>> {
        match self {
            SourceStage::LookForProject => SourceStage::LookForProject,
            SourceStage::MakeRoot => SourceStage::MakeRoot,
            SourceStage::LookForStaging => SourceStage::LookForStaging,
            SourceStage::ClearStaging => SourceStage::ClearStaging,
            SourceStage::MakeStaging => SourceStage::MakeStaging,
            SourceStage::LookForCurl => SourceStage::LookForCurl,
            SourceStage::Download => SourceStage::Download,
            SourceStage::LookForTar => SourceStage::LookForTar,
            SourceStage::Extract => SourceStage::Extract,
            SourceStage::CheckPackage => SourceStage::CheckPackage,
            SourceStage::LookForOld => SourceStage::LookForOld,
            SourceStage::ClearOld => SourceStage::ClearOld,
            SourceStage::MoveIn => SourceStage::MoveIn,
            SourceStage::Ready { fetched } => SourceStage::Ready { fetched: *fetched },
            SourceStage::Failed(s) => SourceStage::Failed(s@),
        }
    }
}

/// What came of a step.
#[derive(Debug)]
pub enum SourceReply<T = String> {
    /// It is there, or it was done.
    Yes,
    /// It is not there.
    No,
    /// It could not be done.
    Error(T),
    /// A tool ran.
    Ran(ToolRun<T>),
}

impl View for SourceReply<String> {
    type V = SourceReply<Seq<char>>;

    open spec fn view(&self) -> SourceReply<Seq<char>> {
        match self {
            SourceReply::Yes => SourceReply::Yes,
            SourceReply::No => SourceReply::No,
            SourceReply::Error(s) => SourceReply::Error(s@),
            SourceReply::Ran(run) => SourceReply::Ran(run@),
        }
    }
}

impl SourceReply<Seq<char>> {
    /// Where a step goes that either succeeds or fails for a reason.
    pub open spec fn done(self, then: SourceStage<Seq<char>>, why: Seq<char>) -> SourceStage<
        Seq<char>,
    > {
        match self {
            SourceReply::Error(e) => SourceStage::Failed(why + e),
            _ => then,
        }
    }

    /// Where a step goes that runs a tool.
    pub open spec fn ran(
        self,
        then: SourceStage<Seq<char>>,
        why: Seq<char>,
        command: Seq<char>,
    ) -> SourceStage<Seq<char>> {
        match self {
            SourceReply::Error(e) => SourceStage::Failed(why + e),
            SourceReply::Ran(run) => if run.success {
                then
            } else {
                SourceStage::Failed(output_failure(command, run))
            },
            _ => then,
        }
    }

    /// Where a step goes that looks for something.
    pub open spec fn looked(self, yes: SourceStage<Seq<char>>, no: SourceStage<Seq<char>>) -> SourceStage<
        Seq<char>,
    > {
        if self is Yes {
            yes
        } else {
            no
        }
    }
}

impl SourceStage<Seq<char>> {
    /// What is to be done after a step.
    pub open spec fn next(self, reply: SourceReply<Seq<char>>) -> SourceStage<Seq<char>> {
        match self {
            SourceStage::LookForProject => reply.looked(
                SourceStage::Ready { fetched: false },
                SourceStage::MakeRoot,
            ),
            SourceStage::MakeRoot => reply.done(
                SourceStage::LookForStaging,
                "创建 WDA 源码目录失败："@,
            ),
            SourceStage::LookForStaging => reply.looked(
                SourceStage::ClearStaging,
                SourceStage::MakeStaging,
            ),
            SourceStage::ClearStaging => reply.done(
                SourceStage::MakeStaging,
                "清理上次 WDA 下载临时目录失败："@,
            ),
            SourceStage::MakeStaging => reply.done(
                SourceStage::LookForCurl,
                "创建 WDA 下载临时目录失败："@,
            ),
            SourceStage::LookForCurl => reply.looked(
                SourceStage::Download,
                SourceStage::Failed("未找到系统 curl，无法自动获取 WDA 源码"@),
            ),
            SourceStage::Download => reply.ran(
                SourceStage::LookForTar,
                "下载 WDA 源码失败："@,
                "下载 WDA 源码"@,
            ),
            SourceStage::LookForTar => reply.looked(
                SourceStage::Extract,
                SourceStage::Failed("未找到系统 tar，无法解压 WDA 源码"@),
            ),
            SourceStage::Extract => reply.ran(
                SourceStage::CheckPackage,
                "解压 WDA 源码失败："@,
                "解压 WDA 源码"@,
            ),
            SourceStage::CheckPackage => reply.looked(
                SourceStage::LookForOld,
                SourceStage::Failed(
                    "下载包中没有找到 WebDriverAgent.xcodeproj，已停止安装"@,
                ),
            ),
            SourceStage::LookForOld => reply.looked(SourceStage::ClearOld, SourceStage::MoveIn),
            SourceStage::ClearOld => reply.done(
                SourceStage::MoveIn,
                "替换旧 WDA 源码失败："@,
            ),
            SourceStage::MoveIn => reply.done(
                SourceStage::Ready { fetched: true },
                "保存 WDA 源码失败："@,
            ),
            SourceStage::Ready { fetched } => self,
            SourceStage::Failed(s) => self,
        }
    }

    /// How many steps may still follow.
    pub open spec fn steps_left(self) -> nat {
        match self {
            SourceStage::LookForProject => 13,
            SourceStage::MakeRoot => 12,
            SourceStage::LookForStaging => 11,
            SourceStage::ClearStaging => 10,
            SourceStage::MakeStaging => 9,
            SourceStage::LookForCurl => 8,
            SourceStage::Download => 7,
            SourceStage::LookForTar => 6,
            SourceStage::Extract => 5,
            SourceStage::CheckPackage => 4,
            SourceStage::LookForOld => 3,
            SourceStage::ClearOld => 2,
            SourceStage::MoveIn => 1,
            SourceStage::Ready { fetched } => 0,
            SourceStage::Failed(s) => 0,
        }
    }
}

/// The fetching of the source comes to an end: each step leads to a later one.
pub proof fn fetching_ends(s: SourceStage<Seq<char>>, reply: SourceReply<Seq<char>>)
    ensures
        s.steps_left() > 0 ==> s.next(reply).steps_left() < s.steps_left(),
        s.steps_left() == 0 ==> s.next(reply) == s,
{
}

/// An older source is cleared away only after the new one was fetched and checked.
pub proof fn old_source_stays_until_the_new_one_is_checked(
    s: SourceStage<Seq<char>>,
    reply: SourceReply<Seq<char>>,
)
    ensures
        s.next(reply) is ClearOld ==> s is LookForOld,
        s.next(reply) is LookForOld ==> s is CheckPackage && reply is Yes,
{
}

fn done(reply: SourceReply, then: SourceStage, why: &str) -> (r: SourceStage)
    ensures
        r@ == reply@.done(then@, why@),
{
    match reply {
        SourceReply::Error(e) => SourceStage::Failed(text::cat2(why, e.as_str())),
        _ => then,
    }
}

fn ran(reply: SourceReply, then: SourceStage, why: &str, command: &str) -> (r: SourceStage)
    ensures
        r@ == reply@.ran(then@, why@, command@),
{
    match reply {
        SourceReply::Error(e) => SourceStage::Failed(text::cat2(why, e.as_str())),
        SourceReply::Ran(run) => if run.success {
            then
        } else {
            SourceStage::Failed(format_output_error(command, &run))
        },
        _ => then,
    }
}

fn looked(reply: SourceReply, yes: SourceStage, no: SourceStage) -> (r: SourceStage)
    ensures
        r@ == reply@.looked(yes@, no@),
{
    match reply {
        SourceReply::Yes => yes,
        _ => no,
    }
}

impl SourceStage {
    /// Goes on after a step.
    pub fn advance(self, reply: SourceReply) -> (r: SourceStage)
        ensures
            r@ == self@.next(reply@),
    {
        match self {
            SourceStage::LookForProject => looked(
                reply,
                SourceStage::Ready { fetched: false },
                SourceStage::MakeRoot,
            ),
            SourceStage::MakeRoot => done(
                reply,
                SourceStage::LookForStaging,
                "创建 WDA 源码目录失败：",
            ),
            SourceStage::LookForStaging => looked(
                reply,
                SourceStage::ClearStaging,
                SourceStage::MakeStaging,
            ),
            SourceStage::ClearStaging => done(
                reply,
                SourceStage::MakeStaging,
                "清理上次 WDA 下载临时目录失败：",
            ),
            SourceStage::MakeStaging => done(
                reply,
                SourceStage::LookForCurl,
                "创建 WDA 下载临时目录失败：",
            ),
            SourceStage::LookForCurl => looked(
                reply,
                SourceStage::Download,
                SourceStage::Failed(text::own("未找到系统 curl，无法自动获取 WDA 源码")),
            ),
            SourceStage::Download => ran(
                reply,
                SourceStage::LookForTar,
                "下载 WDA 源码失败：",
                "下载 WDA 源码",
            ),
            SourceStage::LookForTar => looked(
                reply,
                SourceStage::Extract,
                SourceStage::Failed(text::own("未找到系统 tar，无法解压 WDA 源码")),
            ),
            SourceStage::Extract => ran(
                reply,
                SourceStage::CheckPackage,
                "解压 WDA 源码失败：",
                "解压 WDA 源码",
            ),
            SourceStage::CheckPackage => looked(
                reply,
                SourceStage::LookForOld,
                SourceStage::Failed(
                    text::own("下载包中没有找到 WebDriverAgent.xcodeproj，已停止安装"),
                ),
            ),
            SourceStage::LookForOld => looked(reply, SourceStage::ClearOld, SourceStage::MoveIn),
            SourceStage::ClearOld => done(
                reply,
                SourceStage::MoveIn,
                "替换旧 WDA 源码失败：",
            ),
            SourceStage::MoveIn => done(
                reply,
                SourceStage::Ready { fetched: true },
                "保存 WDA 源码失败：",
            ),
            SourceStage::Ready { fetched } => SourceStage::Ready { fetched },
            SourceStage::Failed(s) => SourceStage::Failed(s),
        }
    }
}

/// The checksum that the checksum tool printed.
pub open spec fn checksum_of(run: Option<ToolRun<Seq<char>>>) -> Seq<char> {
    match run {
        Some(r) => if r.success {
            text::trimmed(r.stdout)
        } else {
            "unavailable"@
        },
        None => "unavailable"@,
    }
}

/// What is noted of the source that was fetched.
pub open spec fn manifest_content(checksum: Seq<char>) -> Json {
    Json::Object(
        seq![
            (
                "note"@,
                Json::Text(
                    "下载包内 LICENSE 文件随源码保留；仅在用户点击 WDA 准备后获取"@,
                ),
            ),
            ("sha256"@, Json::Text(checksum)),
            ("source"@, Json::Text(WDA_SOURCE_URL@)),
            ("version"@, Json::Text(WDA_SOURCE_VERSION@)),
        ],
    )
}

/// What is noted of the source that was fetched, as a text.
pub fn source_manifest(checksum: Option<ToolRun>) -> (r: String)
    ensures
        ({
            let v = manifest_content(
                checksum_of(
                    match checksum {
                        Some(run) => Some(run@),
                        None => None,
                    },
                ),
            );
            r@ == json::text_of_json(v) && json::json_of_text(r@) == Some(v)
        }),
{
    let sum = match &checksum {
        Some(run) => if run.success {
            text::trim(run.stdout.as_str())
        } else {
            text::own("unavailable")
        },
        None => text::own("unavailable"),
    };
    let mut o: Vec<(String, JsonValue)> = Vec::new();
    json::push_member(
        &mut o,
        "note",
        text_value("下载包内 LICENSE 文件随源码保留；仅在用户点击 WDA 准备后获取"),
    );
    json::push_member(&mut o, "sha256", text_value(sum.as_str()));
    json::push_member(&mut o, "source", text_value(WDA_SOURCE_URL));
    json::push_member(&mut o, "version", text_value(WDA_SOURCE_VERSION));
    let ghost inner = json::members(o@);
    let v = json::object_value(o);
    proof {
        reveal_strlit("note");
        reveal_strlit("sha256");
        reveal_strlit("source");
        reveal_strlit("version");
        json::lemma_text_before("note"@, "sha256"@, 0);
        json::lemma_text_before("sha256"@, "source"@, 1);
        json::lemma_text_before("source"@, "version"@, 0);
        let s = manifest_content(sum@)->Object_0;
        assert(inner =~= s);
        json::lemma_object_writable(s, 1);
        json::lemma_writable_deeper(Json::Object(s), 2, json::max_depth());
    }
    json::write_json(&v)
}

// ---------------------------------------------------------------------------
// Laws
// ---------------------------------------------------------------------------

/// The identifier of a phone does not occur in a text in which it is hidden.
pub proof fn hidden_identifiers_are_gone(s: Seq<char>, raw_udid: Seq<char>)
    requires
        usb_devices::valid_id(raw_udid),
    ensures
        !text::occurs(hidden(s, raw_udid), raw_udid),
{
    reveal_strlit("<已隐藏设备标识>");
    let to = "<已隐藏设备标识>"@;
    assert forall|i: int, j: int| 0 <= i < raw_udid.len() && 0 <= j < to.len() implies
        #[trigger] raw_udid[i] != #[trigger] to[j] by {
        assert(usb_devices::id_char(raw_udid[i]));
        assert(j == 0 || j == 1 || j == 2 || j == 3 || j == 4 || j == 5 || j == 6 || j == 7 || j
            == 8);
    }
    text::replaced_texts_are_gone(s, raw_udid, to);
}

/// The source is fetched step by step where it is not there: a directory, an empty place to
/// unpack in, the download, the unpacking, the check, and then it is moved to its place. Leftovers
/// of an earlier attempt and an older source are cleared away right before their place is needed.
pub proof fn sources_are_fetched_step_by_step(run: ToolRun<Seq<char>>)
    requires
        run.success,
    ensures
        ({
            let yes = SourceReply::<Seq<char>>::Yes;
            let no = SourceReply::<Seq<char>>::No;
            let ran = SourceReply::Ran(run);
            let start = SourceStage::<Seq<char>>::LookForProject;
            let staging = start.next(no).next(yes);
            let make = staging.next(no);
            let load = make.next(yes).next(yes);
            let unpack = load.next(ran).next(yes);
            let old = unpack.next(ran).next(yes);
            &&& start.next(yes) == (SourceStage::<Seq<char>>::Ready { fetched: false })
            &&& start.next(no) is MakeRoot && staging is LookForStaging && make is MakeStaging
            &&& staging.next(yes) is ClearStaging && staging.next(yes).next(yes) is MakeStaging
            &&& make.next(yes) is LookForCurl && load is Download && load.next(ran) is LookForTar
            &&& unpack is Extract && unpack.next(ran) is CheckPackage && old is LookForOld
            &&& old.next(yes) is ClearOld && old.next(yes).next(yes) is MoveIn
            &&& old.next(no) is MoveIn
            &&& old.next(no).next(yes) == (SourceStage::<Seq<char>>::Ready { fetched: true })
        }),
{
}

/// A step that could not be done ends the fetching with its reason, and so does a tool that is
/// missing or fails, and a package that is not the project. A source counts as fetched only after
/// it was moved to its place.
pub proof fn fetching_fails_where_a_step_fails(
    s: SourceStage<Seq<char>>,
    reply: SourceReply<Seq<char>>,
    why: Seq<char>,
    run: ToolRun<Seq<char>>,
)
    ensures
        s is MakeRoot || s is ClearStaging || s is MakeStaging || s is Download || s is Extract || s
            is ClearOld || s is MoveIn ==> (s.next(SourceReply::Error(why)) matches
            SourceStage::Failed(said) && why.is_suffix_of(said)),
        !run.success && (s is Download || s is Extract) ==> s.next(SourceReply::Ran(run)) is Failed,
        s is LookForCurl || s is LookForTar || s is CheckPackage ==> s.next(SourceReply::No)
            is Failed,
        s.next(reply) == (SourceStage::<Seq<char>>::Ready { fetched: true }) ==> s is MoveIn || s
            == s.next(reply),
        s.next(reply) == (SourceStage::<Seq<char>>::Ready { fetched: false }) ==> (s
            is LookForProject && reply is Yes) || s == s.next(reply),
{
    let n = s.next(SourceReply::Error(why));
    if let SourceStage::Failed(said) = n {
        if s is MakeRoot || s is ClearStaging || s is MakeStaging || s is Download || s is Extract
            || s is ClearOld || s is MoveIn {
            assert(said.subrange(said.len() - why.len(), said.len() as int) =~= why);
        }
    }
}

/// The first manifest that names the server decides its identifier, and without one it is the
/// common one; what is configured comes before all of them. Whatever comes out is a bundle
/// identifier.
pub proof fn identifiers_come_from_the_first_that_names_one(
    configured: Option<Seq<char>>,
    manifests: Seq<Option<String>>,
    from: int,
)
    requires
        0 <= from <= manifests.len(),
    ensures
        is_bundle_id(first_bundle(manifests, from)),
        is_bundle_id(chosen_bundle(configured, manifests)),
        configured matches Some(c) ==> is_bundle_id(text::trimmed(c)) ==> chosen_bundle(
            configured,
            manifests,
        ) == text::trimmed(c),
        configured is None ==> chosen_bundle(configured, manifests) == first_bundle(manifests, 0),
        from < manifests.len() && manifests[from] is Some && bundle_in(
            json::json_of_text(manifests[from]->Some_0@),
        ) is Some ==> Some(first_bundle(manifests, from)) == bundle_in(
            json::json_of_text(manifests[from]->Some_0@),
        ),
        from < manifests.len() && manifests[from] is None ==> first_bundle(manifests, from)
            == first_bundle(manifests, from + 1),
{
    lemma_first_bundle(manifests, from);
    lemma_first_bundle(manifests, 0);
}

proof fn lemma_first_bundle(manifests: Seq<Option<String>>, from: int)
    requires
        0 <= from <= manifests.len(),
    ensures
        is_bundle_id(first_bundle(manifests, from)),
    decreases manifests.len() - from,
{
    if from < manifests.len() {
        lemma_first_bundle(manifests, from + 1);
    } else {
        reveal_strlit("com.facebook.WebDriverAgentRunner.xctrunner");
        let d = "com.facebook.WebDriverAgentRunner.xctrunner"@;
        assert forall|i: int| 0 <= i < d.len() implies usb_devices::id_char(#[trigger] d[i]) by {
            assert(text::is_alphanumeric(d[i]) || d[i] == '.');
        }
    }
}

/// What is noted of a source names its checksum, where it came from and its version.
pub proof fn notes_name_the_checksum(checksum: Seq<char>)
    ensures
        manifest_content(checksum).get("sha256"@) == Some(Json::Text(checksum)),
        manifest_content(checksum).get("source"@) == Some(Json::Text(WDA_SOURCE_URL@)),
        manifest_content(checksum).get("version"@) == Some(Json::Text(WDA_SOURCE_VERSION@)),
{
    reveal_strlit("note");
    reveal_strlit("sha256");
    reveal_strlit("source");
    reveal_strlit("version");
    assert("note"@.len() == 4 && "sha256"@.len() == 6 && "source"@.len() == 6 && "version"@.len()
        == 7 && "sha256"@[1] == 'h' && "source"@[1] == 'o');
    reveal_with_fuel(json::member_at, 5);
}

/// What is kept of a log is its end, at most 8192 bytes of it; what a run printed are its errors
/// where there are any, and the last lines come last.
pub proof fn logs_are_kept_by_their_end(b: Seq<u8>, lines: Seq<Seq<char>>, n: int)
    requires
        0 <= n,
    ensures
        log_end(b).len() <= 8192 && log_end(b) == b.skip(b.len() - log_end(b).len()),
        b.len() > 8192 ==> log_end(b).len() == 8192,
        b.len() <= 8192 ==> log_end(b) == b,
        last_lines(lines, n).len() <= n,
        last_lines(lines, n) == lines.skip(lines.len() - last_lines(lines, n).len()),
        lines.len() >= n ==> last_lines(lines, n).len() == n,
{
    assert(b.skip(0) =~= b);
    assert(lines.skip(0) =~= lines);
}

/// An installation succeeded where its tool ran and ended well; otherwise it is said why not, and
/// the identifier of the phone is not.
pub proof fn installations_end_well_or_say_why(
    run: Result<ToolRun<Seq<char>>, Seq<char>>,
    raw_udid: Seq<char>,
)
    ensures
        install_failure(run, raw_udid) is None <==> (run matches Ok(r) && r.success),
        run matches Err(why) ==> (install_failure(run, raw_udid) matches Some(s) && why.len()
            <= s.len() && s.skip(s.len() - why.len()) == why),
        run matches Ok(r) ==> !r.success ==> install_failure(run, raw_udid) == Some(
            "WDA IPA 安装失败："@ + run_summary(r, raw_udid, 5, 1800),
        ),
{
    match run {
        Err(why) => {
            let s = "启动 ideviceinstaller 失败："@ + why;
            assert(s.skip(s.len() - why.len()) =~= why);
        },
        Ok(_) => {},
    }
}

/// A team is named by at most 32 letters and digits.
pub proof fn teams_are_named_by_letters_and_digits(s: Seq<char>)
    ensures
        is_team(s) ==> 1 <= s.len() <= 32,
        is_team(s) ==> forall|i: int|
            0 <= i < s.len() ==> text::is_digit(#[trigger] s[i]) || text::is_lower(s[i])
                || text::is_upper(s[i]),
        s.len() == 0 || s.len() > 32 ==> !is_team(s),
        !is_team(s) && 0 < s.len() <= 32 ==> exists|i: int|
            0 <= i < s.len() && !text::is_alphanumeric(#[trigger] s[i]),
{
}

/// The version of Xcode is what its first two lines say, with a space between them.
pub proof fn versions_are_the_first_two_lines(
    a: Seq<char>,
    b: Seq<char>,
    rest: Seq<char>,
    status: Seq<char>,
    stderr: Seq<char>,
)
    requires
        a.len() > 0,
        b.len() > 0,
        a.last() != '\r',
        b.last() != '\r',
        forall|i: int| 0 <= i < a.len() ==> #[trigger] a[i] != '\n',
        forall|i: int| 0 <= i < b.len() ==> #[trigger] b[i] != '\n',
    ensures
        ({
            let run = ToolRun {
                success: true,
                status,
                stdout: a + seq!['\n'] + (b + seq!['\n'] + rest),
                stderr,
            };
            &&& version_of(true, Ok(run)) == Ok::<_, Seq<char>>(a + " "@ + b)
            &&& version_of(false, Ok(run)) is Err
            &&& version_of(true, Ok(ToolRun { success: false, ..run })) is Err
        }),
        version_of(true, Err(rest)) is Err,
{
    let out = a + seq!['\n'] + (b + seq!['\n'] + rest);
    text::lines_are_read_one_by_one(a, b + seq!['\n'] + rest);
    text::lines_are_read_one_by_one(b, rest);
    let lines = text::lines_of(out);
    assert(lines =~= seq![a] + (seq![b] + text::lines_of(rest)));
    let two = if lines.len() <= 2 {
        lines
    } else {
        lines.take(2)
    };
    assert(two =~= seq![a] + seq![b]);
    text::joined_texts_stand_in_a_row(seq![a], seq![b], " "@);
    text::joined_texts_stand_in_a_row(seq![b], seq![b], " "@);
    reveal_strlit(" ");
}

/// A checksum is what its tool printed, and is not there where the tool did not end well.
pub proof fn checksums_are_what_the_tool_printed(run: Option<ToolRun<Seq<char>>>)
    ensures
        run matches Some(r) ==> r.success ==> checksum_of(run) == text::trimmed(r.stdout),
        run matches Some(r) ==> !r.success ==> checksum_of(run) == "unavailable"@,
        run is None ==> checksum_of(run) == "unavailable"@,
{
}

/// What is shown of a log never holds the identifier of the phone, and is not longer than its
/// limit.
pub proof fn shown_logs_are_hidden_and_short(s: Seq<char>, raw_udid: Seq<char>, limit: int)
    requires
        0 <= limit,
    ensures
        shown_log(s, raw_udid, limit).len() <= limit,
        text::trimmed(hidden(s, raw_udid)).len() <= limit ==> shown_log(s, raw_udid, limit)
            == text::trimmed(hidden(s, raw_udid)),
        shown_log(s, raw_udid, limit).is_prefix_of(text::trimmed(hidden(s, raw_udid))),
{
}

} // verus!
