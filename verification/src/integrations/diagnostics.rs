//! The overview of the environment that a user can look at and export.
//!
//! Addresses are masked before they enter a report. A report holds no picture, sound, text of
//! the clipboard or keystrokes.
use vstd::prelude::*;

use crate::integrations::adb;
use crate::integrations::adb::AdbDevice;
use crate::integrations::android_frame;
use crate::integrations::AdapterError;
use crate::seqs;
use crate::text;

verus! {

/// The state of something that the program depends on.
#[derive(Debug)]
pub struct DependencyState<T = String> {
    /// `ok`, `missing`, `unsupported` or `unknown`.
    pub status: T,
    pub detail: T,
}

impl View for DependencyState<String> {
    type V = DependencyState<Seq<char>>;

    open spec fn view(&self) -> DependencyState<Seq<char>> {
        DependencyState { status: self.status@, detail: self.detail@ }
    }
}

impl DependencyState {
    pub fn ok(detail: &str) -> (r: Self)
        ensures
            r@ == (DependencyState { status: "ok"@, detail: detail@ }),
    {
        DependencyState { status: text::own("ok"), detail: text::own(detail) }
    }

    pub fn missing(detail: &str) -> (r: Self)
        ensures
            r@ == (DependencyState { status: "missing"@, detail: detail@ }),
    {
        DependencyState { status: text::own("missing"), detail: text::own(detail) }
    }

    pub fn unsupported(detail: &str) -> (r: Self)
        ensures
            r@ == (DependencyState { status: "unsupported"@, detail: detail@ }),
    {
        DependencyState { status: text::own("unsupported"), detail: text::own(detail) }
    }

    pub fn unknown(detail: &str) -> (r: Self)
        ensures
            r@ == (DependencyState { status: "unknown"@, detail: detail@ }),
    {
        DependencyState { status: text::own("unknown"), detail: text::own(detail) }
    }
}

/// A network interface, with its addresses masked.
#[derive(Debug)]
pub struct NetworkInterfaceInfo<T = String> {
    pub name: T,
    pub ipv4_masked: Option<T>,
    pub mac_masked: Option<T>,
    pub status: T,
}

impl View for NetworkInterfaceInfo<String> {
    type V = NetworkInterfaceInfo<Seq<char>>;

    open spec fn view(&self) -> NetworkInterfaceInfo<Seq<char>> {
        NetworkInterfaceInfo {
            name: self.name@,
            ipv4_masked: text::opt_text(self.ipv4_masked),
            mac_masked: text::opt_text(self.mac_masked),
            status: self.status@,
        }
    }
}

/// The contents of a list of interfaces.
pub open spec fn interfaces_view(v: Seq<NetworkInterfaceInfo>) -> Seq<
    NetworkInterfaceInfo<Seq<char>>,
> {
    Seq::new(v.len(), |i: int| v[i]@)
}

/// What is known of the firewall; the program changes no setting of the system.
#[derive(Debug)]
pub struct FirewallCheck {
    pub checked: bool,
    pub allowed: Option<bool>,
    pub detail: String,
}

/// An entry of a log. It holds nothing that was typed.
#[derive(Debug)]
pub struct LogEntry<T = String> {
    pub at: T,
    /// `info`, `warn` or `error`.
    pub level: T,
    pub code: T,
    pub message: T,
}

impl View for LogEntry<String> {
    type V = LogEntry<Seq<char>>;

    open spec fn view(&self) -> LogEntry<Seq<char>> {
        LogEntry {
            at: self.at@,
            level: self.level@,
            code: self.code@,
            message: self.message@,
        }
    }
}

impl Clone for LogEntry<String> {
    fn clone(&self) -> (r: Self)
        ensures
            r@ == self@,
    {
        LogEntry {
            at: text::own(self.at.as_str()),
            level: text::own(self.level.as_str()),
            code: text::own(self.code.as_str()),
            message: text::own(self.message.as_str()),
        }
    }
}

/// The contents of a list of entries.
pub open spec fn entries(v: Seq<LogEntry>) -> Seq<LogEntry<Seq<char>>> {
    Seq::new(v.len(), |i: int| v[i]@)
}

/// A copy of a list of entries.
pub fn copy_entries(v: &[LogEntry]) -> (r: Vec<LogEntry>)
    ensures
        entries(r@) == entries(v@),
{
    let mut out: Vec<LogEntry> = Vec::new();
    let mut i: usize = 0;
    while i < v.len()
        invariant
            i <= v@.len(),
            out@.len() == i,
            forall|j: int| 0 <= j < i ==> #[trigger] out@[j]@ == v@[j]@,
        decreases v@.len() - i,
    {
        out.push(v[i].clone());
        i = i + 1;
    }
    assert(entries(out@) =~= entries(v@));
    out
}

/// The overview of the environment.
#[derive(Debug)]
pub struct DiagnosticsReport {
    pub generated_at: String,
    pub source: String,
    pub app: AppInfo,
    pub os: OsInfo,
    pub network: NetworkDiagnostic,
    pub bluetooth: BluetoothDiagnostic,
    pub mirror: MirrorDiagnostic,
    pub security: SecurityDiagnostic,
    pub recent_errors: Vec<LogEntry>,
}

#[derive(Debug)]
pub struct AppInfo {
    pub version: String,
    pub tauri_version: String,
    pub rust_version: String,
}

#[derive(Debug)]
pub struct OsInfo {
    pub family: String,
    pub version: String,
    pub build: Option<u32>,
    pub meets_minimum: bool,
}

#[derive(Debug)]
pub struct NetworkDiagnostic {
    pub interfaces: Vec<NetworkInterfaceInfo>,
    pub mdns: DependencyState,
    pub firewall: FirewallCheck,
}

#[derive(Debug)]
pub struct BluetoothDiagnostic {
    pub peripheral_role: bool,
    pub adapter_name: Option<String>,
    pub adapter_address_masked: Option<String>,
    pub note: String,
}

#[derive(Debug)]
pub struct MirrorDiagnostic {
    pub uxplay: DependencyState,
    pub gstreamer: DependencyState,
    pub port: u16,
    pub last_exit_code: Option<i32>,
    pub android: AndroidDiagnostic,
}

#[derive(Debug)]
pub struct AndroidDiagnostic {
    pub adb: DependencyState,
    pub ffmpeg: DependencyState,
    pub scrcpy_server: DependencyState,
    /// The authorized devices, each as its masked serial number and its state.
    pub authorized_devices: Vec<String>,
    pub detail: String,
}

#[derive(Debug)]
pub struct SecurityDiagnostic {
    pub csp: String,
    pub capabilities: Vec<String>,
    pub clipboard_policy: String,
}

// ---------------------------------------------------------------------------
// Masking
// ---------------------------------------------------------------------------

/// An address with only its first two parts shown.
pub open spec fn masked_ipv4(ip: Seq<char>) -> Seq<char> {
    let parts = text::split_by(ip, |c: char| c == '.');
    if parts.len() == 4 {
        parts[0] + "."@ + parts[1] + ".*.*"@
    } else {
        "*.*.*.*"@
    }
}

/// Masks an IPv4 address: only its first two parts are shown.
pub fn mask_ipv4(ip: &str) -> (r: String)
    ensures
        r@ == masked_ipv4(ip@),
{
    let parts = text::split_char(ip, '.');
    let ghost all = text::texts(parts@);
    assert(all.len() == parts@.len());
    if parts.len() == 4 {
        assert(all[0] == parts@[0]@ && all[1] == parts@[1]@);
        text::cat4(parts[0].as_str(), ".", parts[1].as_str(), ".*.*")
    } else {
        text::own("*.*.*.*")
    }
}

/// Addresses of one network are masked alike: nothing of the last two parts is shown.
pub proof fn masks_hide_the_host(a: Seq<char>, b: Seq<char>)
    requires
        text::split_by(a, |c: char| c == '.').len() == 4,
        text::split_by(b, |c: char| c == '.').len() == 4,
        text::split_by(a, |c: char| c == '.').take(2) == text::split_by(
            b,
            |c: char| c == '.',
        ).take(2),
    ensures
        masked_ipv4(a) == masked_ipv4(b),
{
    let x = text::split_by(a, |c: char| c == '.');
    let y = text::split_by(b, |c: char| c == '.');
    assert(x[0] == x.take(2)[0] && x[1] == x.take(2)[1]);
    assert(y[0] == y.take(2)[0] && y[1] == y.take(2)[1]);
}

/// The parts of a hardware address.
pub open spec fn mac_parts(mac: Seq<char>) -> Seq<Seq<char>> {
    seqs::collect(text::split_by(mac, text::is_either(':', '-')), not_empty())
}

pub open spec fn not_empty() -> spec_fn(Seq<char>) -> Option<Seq<char>> {
    |p: Seq<char>|
        if p.len() == 0 {
            None
        } else {
            Some(p)
        }
}

/// What is kept of a hardware address: the part that names the maker.
pub open spec fn mac_head(mac: Seq<char>) -> Option<Seq<char>> {
    let parts = mac_parts(mac);
    if parts.len() == 6 {
        Some(parts[0] + ":"@ + parts[1] + ":"@ + parts[2] + ":xx:xx:xx"@)
    } else {
        None
    }
}

/// What is kept of a hardware address, in the case in which it was written.
pub fn maker_part(mac: &str) -> (r: Option<String>)
    ensures
        text::opt_text(r) == mac_head(mac@),
{
    let pieces = text::split_at_either(mac, ':', '-');
    let ghost all = text::texts(pieces@);
    let ghost f = not_empty();
    let mut parts: Vec<String> = Vec::new();
    let mut i: usize = 0;
    proof {
        seqs::lemma_collect_ends(all, f);
        assert(text::texts(parts@) =~= Seq::<Seq<char>>::empty());
    }
    while i < pieces.len()
        invariant
            i <= pieces@.len(),
            all == text::texts(pieces@),
            f == not_empty(),
            text::texts(parts@) == seqs::collect(all.take(i as int), f),
        decreases pieces@.len() - i,
    {
        proof {
            seqs::lemma_collect_step(all, f, i as int);
            assert(all[i as int] == pieces@[i as int]@);
        }
        if !pieces[i].as_str().is_empty() {
            adb::push_text(&mut parts, pieces[i].as_str());
        }
        i = i + 1;
    }
    proof {
        seqs::lemma_collect_ends(all, f);
        assert(text::texts(parts@).len() == parts@.len());
    }
    if parts.len() == 6 {
        proof {
            let t = text::texts(parts@);
            assert(t[0] == parts@[0]@ && t[1] == parts@[1]@ && t[2] == parts@[2]@);
        }
        let mut s = text::cat5(
            parts[0].as_str(),
            ":",
            parts[1].as_str(),
            ":",
            parts[2].as_str(),
        );
        s.append(":xx:xx:xx");
        Some(s)
    } else {
        None
    }
}

/// Masks a hardware address: the part that names the maker is kept, in upper case.
pub fn mask_mac(mac: &str) -> (r: String)
    ensures
        match mac_head(mac@) {
            Some(s) => r@ == text::unicode_uppercase(s) && (text::all_ascii(s) ==> r@
                == text::uppered(s)),
            None => r@ == "XX:XX:XX:XX:XX:XX"@,
        },
{
    match maker_part(mac) {
        Some(s) => text::to_uppercase(s.as_str()),
        None => text::own("XX:XX:XX:XX:XX:XX"),
    }
}

// ---------------------------------------------------------------------------
// Probes
// ---------------------------------------------------------------------------

/// What came of resolving a name that only multicast DNS knows.
#[derive(Debug, Clone, Copy, PartialEq, Eq, Structural)]
pub enum MdnsOutcome {
    Resolved,
    NotResolved,
    TimedOut,
}

/// The state of multicast DNS.
pub open spec fn mdns_state(outcome: MdnsOutcome) -> DependencyState<Seq<char>> {
    match outcome {
        MdnsOutcome::Resolved => DependencyState {
            status: "ok"@,
            detail: "系统可解析 .local 域名（mDNS/Bonjour 可用）"@,
        },
        MdnsOutcome::NotResolved => DependencyState {
            status: "missing"@,
            detail: "无法解析 .local 域名；mDNS/Bonjour 可能未安装或未运行"@,
        },
        MdnsOutcome::TimedOut => DependencyState {
            status: "unknown"@,
            detail: "探测超时，mDNS 状态待确认"@,
        },
    }
}

/// The state of multicast DNS.
pub fn probe_mdns(outcome: MdnsOutcome) -> (r: DependencyState)
    ensures
        r@ == mdns_state(outcome),
{
    match outcome {
        MdnsOutcome::Resolved => DependencyState::ok(
            "系统可解析 .local 域名（mDNS/Bonjour 可用）",
        ),
        MdnsOutcome::NotResolved => DependencyState::missing(
            "无法解析 .local 域名；mDNS/Bonjour 可能未安装或未运行",
        ),
        MdnsOutcome::TimedOut => DependencyState::unknown("探测超时，mDNS 状态待确认"),
    }
}

/// An address of an interface, as the system lists it.
pub struct InterfaceAddress {
    pub name: String,
    pub ip: String,
    pub is_ipv4: bool,
}

/// What is shown of an address: nothing where it is not an IPv4 address.
pub open spec fn shown_interface(a: InterfaceAddress) -> Option<NetworkInterfaceInfo<Seq<char>>> {
    if a.is_ipv4 {
        Some(
            NetworkInterfaceInfo {
                name: a.name@,
                ipv4_masked: Some(masked_ipv4(a.ip@)),
                mac_masked: None,
                status: "UP"@,
            },
        )
    } else {
        None
    }
}

/// What is shown of the interfaces.
pub open spec fn shown_interfaces(found: Result<Seq<InterfaceAddress>, Seq<char>>) -> Seq<
    NetworkInterfaceInfo<Seq<char>>,
> {
    match found {
        Ok(v) => seqs::collect(v, |a: InterfaceAddress| shown_interface(a)),
        Err(why) => seq![
            NetworkInterfaceInfo {
                name: "（枚举失败）"@,
                ipv4_masked: None,
                mac_masked: None,
                status: why,
            },
        ],
    }
}

/// What is shown of the interfaces; `found` is what the system lists, or why it does not.
pub fn list_interfaces(found: &Result<Vec<InterfaceAddress>, String>) -> (r: Vec<
    NetworkInterfaceInfo,
>)
    ensures
        interfaces_view(r@) == shown_interfaces(
            match found {
                Ok(v) => Ok(v@),
                Err(e) => Err(e@),
            },
        ),
{
    let mut out: Vec<NetworkInterfaceInfo> = Vec::new();
    match found {
        Err(why) => {
            let one = NetworkInterfaceInfo {
                name: text::own("（枚举失败）"),
                ipv4_masked: None,
                mac_masked: None,
                status: text::own(why.as_str()),
            };
            out.push(one);
            assert(interfaces_view(out@) =~= seq![one@]);
        },
        Ok(v) => {
            let ghost f = |a: InterfaceAddress| shown_interface(a);
            let mut i: usize = 0;
            proof {
                seqs::lemma_collect_ends(v@, f);
                assert(interfaces_view(out@) =~= Seq::<NetworkInterfaceInfo<Seq<char>>>::empty());
            }
            while i < v.len()
                invariant
                    i <= v@.len(),
                    f == (|a: InterfaceAddress| shown_interface(a)),
                    interfaces_view(out@) == seqs::collect(v@.take(i as int), f),
                decreases v@.len() - i,
            {
                let ghost before = out@;
                proof {
                    seqs::lemma_collect_step(v@, f, i as int);
                }
                if v[i].is_ipv4 {
                    let one = NetworkInterfaceInfo {
                        name: text::own(v[i].name.as_str()),
                        ipv4_masked: Some(mask_ipv4(v[i].ip.as_str())),
                        mac_masked: None,
                        status: text::own("UP"),
                    };
                    out.push(one);
                    assert(interfaces_view(out@) =~= interfaces_view(before).push(one@));
                }
                i = i + 1;
            }
            proof {
                seqs::lemma_collect_ends(v@, f);
            }
        },
    }
    out
}

/// The main address of this machine, masked.
pub fn primary_ip_masked(ip: &Option<String>) -> (r: Option<String>)
    ensures
        text::opt_text(r) == (match text::opt_text(*ip) {
            Some(s) => Some(masked_ipv4(s)),
            None => None,
        }),
{
    match ip {
        Some(s) => Some(mask_ipv4(s.as_str())),
        None => None,
    }
}

/// The system in words: its kind, its version and, in brackets, its architecture.
pub fn os_version_string(os_type: &str, version: &str, architecture: &Option<String>) -> (r: String)
    ensures
        r@ == os_type@ + " "@ + version@ + " ("@ + (match text::opt_text(*architecture) {
            Some(a) => a,
            None => "unknown"@,
        }) + ")"@,
{
    let a = match architecture {
        Some(a) => text::own(a.as_str()),
        None => text::own("unknown"),
    };
    let mut s = text::cat5(os_type, " ", version, " (", a.as_str());
    s.append(")");
    s
}

/// The oldest build of Windows that is supported.
pub const MIN_WINDOWS_BUILD: u32 = 19041;

/// Whether a build of Windows is known and recent enough.
pub open spec fn recent_enough(build: Option<u32>) -> bool {
    build matches Some(b) && b >= MIN_WINDOWS_BUILD
}

/// Whether a build of Windows is recent enough.
pub fn meets_windows_minimum(build: Option<u32>) -> (r: bool)
    ensures
        r == recent_enough(build),
{
    match build {
        Some(b) => b >= MIN_WINDOWS_BUILD,
        None => false,
    }
}

// ---------------------------------------------------------------------------
// Reports
// ---------------------------------------------------------------------------

/// A device as it is shown: its masked serial number and its state.
pub open spec fn device_line(d: AdbDevice<Seq<char>>) -> Seq<char> {
    d.serial_masked + ":"@ + d.status
}

fn line_of(d: &AdbDevice) -> (r: String)
    ensures
        r@ == device_line(d@),
{
    text::cat3(d.serial_masked.as_str(), ":", d.status.as_str())
}

/// The devices of which a line is shown: those that are authorized, or all.
pub open spec fn line_if(only_authorized: bool) -> spec_fn(AdbDevice<Seq<char>>) -> Option<Seq<char>> {
    |d: AdbDevice<Seq<char>>|
        if !only_authorized || d.status == "device"@ {
            Some(device_line(d))
        } else {
            None
        }
}

pub(crate) fn device_lines(v: &Vec<AdbDevice>, only_authorized: bool) -> (r: Vec<String>)
    ensures
        text::texts(r@) == seqs::collect(adb::adb_views(v@), line_if(only_authorized)),
{
    let ghost all = adb::adb_views(v@);
    let ghost f = line_if(only_authorized);
    let mut out: Vec<String> = Vec::new();
    let mut i: usize = 0;
    proof {
        seqs::lemma_collect_ends(all, f);
        assert(text::texts(out@) =~= Seq::<Seq<char>>::empty());
    }
    while i < v.len()
        invariant
            i <= v@.len(),
            all == adb::adb_views(v@),
            f == line_if(only_authorized),
            text::texts(out@) == seqs::collect(all.take(i as int), f),
        decreases v@.len() - i,
    {
        proof {
            seqs::lemma_collect_step(all, f, i as int);
            assert(all[i as int] == v@[i as int]@);
        }
        if !only_authorized || text::same(v[i].status.as_str(), "device") {
            adb::push_text(&mut out, line_of(&v[i]).as_str());
        }
        i = i + 1;
    }
    proof {
        seqs::lemma_collect_ends(all, f);
    }
    out
}

/// What is said about the connected devices.
pub open spec fn devices_detail(all: Seq<AdbDevice<Seq<char>>>) -> Seq<char> {
    text::dec(all.len()) + " 台设备（"@ + text::joined(
        seqs::collect(all, line_if(false)),
        ", "@,
    ) + "）"@
}

/// What was found of the way to Android phones.
pub struct AndroidProbes {
    pub ffmpeg: Option<String>,
    pub scrcpy_server: Option<String>,
    /// Why the debug bridge was not found.
    pub adb_missing: Option<String>,
    /// The devices that it lists.
    pub devices: Result<Vec<AdbDevice>, AdapterError>,
}

pub open spec fn ffmpeg_state(path: Option<Seq<char>>) -> DependencyState<Seq<char>> {
    match path {
        Some(p) => DependencyState { status: "ok"@, detail: "ffmpeg 就位："@ + p },
        None => DependencyState {
            status: "missing"@,
            detail: "未找到 ffmpeg（PATH/Homebrew）；scrcpy H264 解码依赖 ffmpeg"@,
        },
    }
}

pub open spec fn server_state(path: Option<Seq<char>>) -> DependencyState<Seq<char>> {
    match path {
        Some(p) => DependencyState {
            status: "ok"@,
            detail: "scrcpy-server "@ + "4.0"@ + " 就位："@ + p,
        },
        None => DependencyState {
            status: "missing"@,
            detail: "未找到 scrcpy-server "@ + "4.0"@ + "；请运行 pnpm sidecars"@,
        },
    }
}

/// Whether a report shows what was found of the way to Android phones.
pub open spec fn shows_android(r: AndroidDiagnostic, p: AndroidProbes) -> bool {
    &&& r.ffmpeg@ == ffmpeg_state(text::opt_text(p.ffmpeg))
    &&& r.scrcpy_server@ == server_state(text::opt_text(p.scrcpy_server))
    &&& match p.adb_missing {
        Some(why) => {
            &&& r.adb@ == (DependencyState { status: "missing"@, detail: why@ })
            &&& text::texts(r.authorized_devices@) == Seq::<Seq<char>>::empty()
            &&& r.detail@ == "adb 未就绪"@
        },
        None => {
            &&& r.adb@ == (DependencyState { status: "ok"@, detail: "adb 可用"@ })
            &&& text::texts(r.authorized_devices@) == authorized_lines(p.devices)
            &&& r.detail@ == (match p.devices {
                Ok(v) => devices_detail(adb::adb_views(v@)),
                Err(e) => "设备枚举失败："@ + e@.message_text(),
            })
        },
    }
}

/// The authorized devices as they are shown; none where they could not be listed.
pub open spec fn authorized_lines(devices: Result<Vec<AdbDevice>, AdapterError>) -> Seq<
    Seq<char>,
> {
    match devices {
        Ok(v) => seqs::collect(adb::adb_views(v@), line_if(true)),
        Err(_) => Seq::empty(),
    }
}

/// What is shown of the way to Android phones.
pub fn android_diagnostic(p: &AndroidProbes) -> (r: AndroidDiagnostic)
    ensures
        shows_android(r, *p),
{
    let ffmpeg = match &p.ffmpeg {
        Some(s) => DependencyState::ok(text::cat2("ffmpeg 就位：", s.as_str()).as_str()),
        None => DependencyState::missing(
            "未找到 ffmpeg（PATH/Homebrew）；scrcpy H264 解码依赖 ffmpeg",
        ),
    };
    let version = android_frame::scrcpy_server_version();
    let scrcpy_server = match &p.scrcpy_server {
        Some(s) => DependencyState::ok(
            text::cat4("scrcpy-server ", version, " 就位：", s.as_str()).as_str(),
        ),
        None => DependencyState::missing(
            text::cat3("未找到 scrcpy-server ", version, "；请运行 pnpm sidecars").as_str(),
        ),
    };
    let mut authorized_devices: Vec<String> = Vec::new();
    assert(text::texts(authorized_devices@) =~= Seq::<Seq<char>>::empty());
    match &p.adb_missing {
        Some(why) => AndroidDiagnostic {
            adb: DependencyState::missing(why.as_str()),
            ffmpeg,
            scrcpy_server,
            authorized_devices,
            detail: text::own("adb 未就绪"),
        },
        None => {
            let detail = match &p.devices {
                Ok(v) => {
                    authorized_devices = device_lines(v, true);
                    let lines = device_lines(v, false);
                    text::cat4(
                        text::decimal(v.len() as u64).as_str(),
                        " 台设备（",
                        text::join(&lines, ", ").as_str(),
                        "）",
                    )
                },
                Err(e) => text::cat2("设备枚举失败：", e.message().as_str()),
            };
            AndroidDiagnostic {
                adb: DependencyState::ok("adb 可用"),
                ffmpeg,
                scrcpy_server,
                authorized_devices,
                detail,
            }
        },
    }
}

/// What was found of the environment.
pub struct EnvironmentProbes {
    pub generated_at: String,
    pub app_version: String,
    pub tauri_version: String,
    pub rust_version: String,
    pub os_family: String,
    pub os_version: String,
    pub os_build: Option<u32>,
    pub interfaces: Result<Vec<InterfaceAddress>, String>,
    pub mdns: MdnsOutcome,
    /// Whether the Bluetooth adapter can be a peripheral, its masked address, and a note.
    pub ble: (bool, Option<String>, Option<String>),
    /// Whether the receiver is there, its version, and its path or why it is missing.
    pub uxplay: (bool, Option<String>, String),
    pub android: AndroidProbes,
}

/// The state of the receiver.
pub open spec fn uxplay_state(u: (bool, Option<String>, String)) -> DependencyState<Seq<char>> {
    if u.0 {
        DependencyState {
            status: "ok"@,
            detail: "已就位：版本 "@ + (match u.1 {
                Some(v) => v@,
                None => "未登记"@,
            }),
        }
    } else {
        DependencyState { status: "missing"@, detail: u.2@ }
    }
}

/// Whether an overview shows what was found, and some recent errors.
pub open spec fn shows(
    r: DiagnosticsReport,
    p: EnvironmentProbes,
    log: Seq<LogEntry<Seq<char>>>,
) -> bool {
    &&& r.generated_at == p.generated_at
    &&& r.source@ == "live"@
    &&& r.app == (AppInfo {
        version: p.app_version,
        tauri_version: p.tauri_version,
        rust_version: p.rust_version,
    })
    &&& r.os == (OsInfo {
        family: p.os_family,
        version: p.os_version,
        build: p.os_build,
        meets_minimum: recent_enough(p.os_build),
    })
    &&& interfaces_view(r.network.interfaces@) == shown_interfaces(
        match p.interfaces {
            Ok(v) => Ok(v@),
            Err(e) => Err(e@),
        },
    )
    &&& r.network.mdns@ == mdns_state(p.mdns)
    &&& !r.network.firewall.checked
    &&& r.network.firewall.allowed is None
    &&& r.network.firewall.detail@
        == "MVP 不在应用内修改系统设置；请在真实 Windows 环境按文档确认 UDP 6000-6010 入站规则允许 UxPlay"@
    &&& r.bluetooth.peripheral_role == p.ble.0
    &&& r.bluetooth.adapter_name is None
    &&& r.bluetooth.adapter_address_masked == p.ble.1
    &&& r.bluetooth.note@ == (match p.ble.2 {
        Some(n) => n@,
        None => "Peripheral 角色支持取决于适配器；不支持时「启用控制」会被禁用"@,
    })
    &&& r.mirror.uxplay@ == uxplay_state(p.uxplay)
    &&& r.mirror.gstreamer@ == (DependencyState {
        status: "unknown"@,
        detail: "GStreamer 随 UxPlay 构建打包；发布前需生成 SBOM 与第三方声明"@,
    })
    &&& r.mirror.last_exit_code is None
    &&& shows_android(r.mirror.android, p.android)
    &&& r.security.csp@ == "default-src 'self'; connect-src ipc: http://ipc.localhost"@
    &&& r.security.clipboard_policy@ == "仅在用户触发时读取纯文本；不落盘、不上传、不写日志"@
    &&& entries(r.recent_errors@) == log
}

/// Puts the overview together; `error_log` holds the recent errors, `uxplay_port` is the first
/// port of the first receiver, and `capabilities` is what the window is allowed to do.
pub fn collect_diagnostics(
    p: EnvironmentProbes,
    error_log: &[LogEntry],
    uxplay_port: u16,
    capabilities: Vec<String>,
) -> (r: DiagnosticsReport)
    ensures
        shows(r, p, entries(error_log@)),
        r.mirror.port == uxplay_port,
        r.security.capabilities == capabilities,
{
    let android = android_diagnostic(&p.android);
    let interfaces = list_interfaces(&p.interfaces);
    let uxplay = if p.uxplay.0 {
        let version = match &p.uxplay.1 {
            Some(v) => text::own(v.as_str()),
            None => text::own("未登记"),
        };
        DependencyState::ok(text::cat2("已就位：版本 ", version.as_str()).as_str())
    } else {
        DependencyState::missing(p.uxplay.2.as_str())
    };
    let note = match p.ble.2 {
        Some(n) => n,
        None => text::own(
            "Peripheral 角色支持取决于适配器；不支持时「启用控制」会被禁用",
        ),
    };
    DiagnosticsReport {
        generated_at: p.generated_at,
        source: text::own("live"),
        app: AppInfo {
            version: p.app_version,
            tauri_version: p.tauri_version,
            rust_version: p.rust_version,
        },
        os: OsInfo {
            family: p.os_family,
            version: p.os_version,
            build: p.os_build,
            meets_minimum: meets_windows_minimum(p.os_build),
        },
        network: NetworkDiagnostic {
            interfaces,
            mdns: probe_mdns(p.mdns),
            firewall: FirewallCheck {
                checked: false,
                allowed: None,
                detail: text::own(
                    "MVP 不在应用内修改系统设置；请在真实 Windows 环境按文档确认 UDP 6000-6010 入站规则允许 UxPlay",
                ),
            },
        },
        bluetooth: BluetoothDiagnostic {
            peripheral_role: p.ble.0,
            adapter_name: None,
            adapter_address_masked: p.ble.1,
            note,
        },
        mirror: MirrorDiagnostic {
            uxplay,
            gstreamer: DependencyState::unknown(
                "GStreamer 随 UxPlay 构建打包；发布前需生成 SBOM 与第三方声明",
            ),
            port: uxplay_port,
            last_exit_code: None,
            android,
        },
        security: SecurityDiagnostic {
            csp: text::own("default-src 'self'; connect-src ipc: http://ipc.localhost"),
            capabilities,
            clipboard_policy: text::own("仅在用户触发时读取纯文本；不落盘、不上传、不写日志"),
        },
        recent_errors: copy_entries(error_log),
    }
}

/// What an exported overview holds, in words.
pub open spec fn export_contents() -> Seq<Seq<char>> {
    seq![
        "应用与系统版本"@,
        "网络接口（IP/MAC 已脱敏）"@,
        "mDNS / Bonjour 状态"@,
        "防火墙检查状态（非系统修改）"@,
        "蓝牙 LE Peripheral 能力"@,
        "UxPlay / GStreamer 依赖状态"@,
        "安全策略（CSP / capabilities / 剪贴板策略）"@,
        "最近错误（已脱敏，不含输入内容）"@,
    ]
}

/// How an export can fail.
#[derive(Debug, Clone, Copy, PartialEq, Eq, Structural)]
pub enum ExportStep {
    MakeDirectory,
    Serialize,
    Write,
}

/// The name of the file of an export that is made at `stamp`.
pub fn export_file_name(stamp: &str) -> (r: String)
    ensures
        r@ == "phonebridge-diagnostics-"@ + stamp@ + ".json"@,
{
    text::cat3("phonebridge-diagnostics-", stamp, ".json")
}

/// What an export is answered with: where it is and what it holds, or the step that failed and
/// why.
pub fn export_diagnostics(file: &str, failure: Option<(ExportStep, String)>) -> (r: Result<
    (String, Vec<String>),
    AdapterError,
>)
    ensures
        match (failure, r) {
            (None, Ok((path, contents))) => path@ == file@ && text::texts(contents@)
                == export_contents(),
            (Some((step, why)), Err(e)) => e@ == AdapterError::Failed(
                (match step {
                    ExportStep::MakeDirectory => "创建诊断目录失败: "@,
                    ExportStep::Serialize => "序列化诊断报告失败: "@,
                    ExportStep::Write => "写入诊断包失败: "@,
                }) + why@,
            ),
            _ => false,
        },
{
    match failure {
        Some((step, why)) => {
            let before = match step {
                ExportStep::MakeDirectory => "创建诊断目录失败: ",
                ExportStep::Serialize => "序列化诊断报告失败: ",
                ExportStep::Write => "写入诊断包失败: ",
            };
            Err(AdapterError::Failed(text::cat2(before, why.as_str())))
        },
        None => {
            let parts = [
                "应用与系统版本",
                "网络接口（IP/MAC 已脱敏）",
                "mDNS / Bonjour 状态",
                "防火墙检查状态（非系统修改）",
                "蓝牙 LE Peripheral 能力",
                "UxPlay / GStreamer 依赖状态",
                "安全策略（CSP / capabilities / 剪贴板策略）",
                "最近错误（已脱敏，不含输入内容）",
            ];
            let contents = text::own_all(&parts);
            assert(text::texts(contents@) =~= export_contents());
            Ok((text::own(file), contents))
        },
    }
}

/// No report shows more of an address than its first two parts.
pub proof fn reports_show_masked_addresses(found: Result<Seq<InterfaceAddress>, Seq<char>>, i: int)
    requires
        0 <= i < shown_interfaces(found).len(),
    ensures
        shown_interfaces(found)[i].mac_masked is None,
        match shown_interfaces(found)[i].ipv4_masked {
            Some(s) => exists|ip: Seq<char>| s == #[trigger] masked_ipv4(ip),
            None => found is Err,
        },
{
    match found {
        Ok(v) => {
            lemma_shown(v, i);
        },
        Err(_) => {},
    }
}

proof fn lemma_shown(v: Seq<InterfaceAddress>, i: int)
    requires
        0 <= i < seqs::collect(v, |a: InterfaceAddress| shown_interface(a)).len(),
    ensures
        ({
            let x = seqs::collect(v, |a: InterfaceAddress| shown_interface(a))[i];
            x.mac_masked is None && x.ipv4_masked is Some && exists|ip: Seq<char>|
                x.ipv4_masked == Some(#[trigger] masked_ipv4(ip))
        }),
    decreases v.len(),
{
    let f = |a: InterfaceAddress| shown_interface(a);
    if v.len() > 0 {
        let n = v.len() - 1;
        seqs::lemma_collect_step(v, f, n);
        assert(v.take(n + 1) =~= v);
        assert(v.take(n) =~= v.drop_last());
        if i < seqs::collect(v.drop_last(), f).len() {
            lemma_shown(v.drop_last(), i);
        }
    }
}

// ---------------------------------------------------------------------------
// Laws
// ---------------------------------------------------------------------------

/// An address of four parts is shown by its first two, in their order; what has another form is
/// not shown at all.
pub proof fn addresses_show_their_network(
    a: Seq<char>,
    b: Seq<char>,
    c: Seq<char>,
    d: Seq<char>,
    other: Seq<char>,
)
    requires
        !a.contains('.'),
        !b.contains('.'),
        !c.contains('.'),
        !d.contains('.'),
    ensures
        masked_ipv4(a + seq!['.'] + (b + seq!['.'] + (c + seq!['.'] + d))) == a + seq!['.'] + b
            + seq!['.', '*', '.', '*'],
        text::split_by(other, |x: char| x == '.').len() != 4 ==> masked_ipv4(other) == seq![
            '*',
            '.',
            '*',
            '.',
            '*',
            '.',
            '*',
        ],
{
    let f = |x: char| x == '.';
    lemma_without(a, '.', f);
    lemma_without(b, '.', f);
    lemma_without(c, '.', f);
    lemma_without(d, '.', f);
    text::pieces_are_split_off(d, '.', d, f);
    text::pieces_are_split_off(c, '.', d, f);
    text::pieces_are_split_off(b, '.', c + seq!['.'] + d, f);
    text::pieces_are_split_off(a, '.', b + seq!['.'] + (c + seq!['.'] + d), f);
    let ip = a + seq!['.'] + (b + seq!['.'] + (c + seq!['.'] + d));
    assert(text::split_by(ip, f) =~= seq![a, b, c, d]);
    reveal_strlit(".");
    reveal_strlit(".*.*");
    reveal_strlit("*.*.*.*");
    assert("."@ =~= seq!['.']);
    assert(".*.*"@ =~= seq!['.', '*', '.', '*']);
    assert("*.*.*.*"@ =~= seq!['*', '.', '*', '.', '*', '.', '*']);
}

proof fn lemma_without(s: Seq<char>, c: char, f: spec_fn(char) -> bool)
    requires
        !s.contains(c),
        forall|x: char| #[trigger] f(x) ==> x == c,
    ensures
        forall|i: int| 0 <= i < s.len() ==> !f(#[trigger] s[i]),
{
    assert forall|i: int| 0 <= i < s.len() implies !f(#[trigger] s[i]) by {
        assert(s.contains(s[i]));
    }
}

/// Whether a text is a part of a hardware address: it is there, and nothing in it parts it.
pub open spec fn mac_part(s: Seq<char>) -> bool {
    s.len() > 0 && !s.contains(':') && !s.contains('-')
}

/// Of a hardware address, its first three parts are shown, in their order, whichever of the two
/// characters stands between the parts.
pub proof fn hardware_addresses_show_their_maker(
    sep: char,
    a: Seq<char>,
    b: Seq<char>,
    c: Seq<char>,
    d: Seq<char>,
    e: Seq<char>,
    g: Seq<char>,
)
    requires
        sep == ':' || sep == '-',
        mac_part(a) && mac_part(b) && mac_part(c) && mac_part(d) && mac_part(e) && mac_part(g),
    ensures
        mac_head(
            a + seq![sep] + (b + seq![sep] + (c + seq![sep] + (d + seq![sep] + (e + seq![sep] + g)))),
        ) == Some(a + seq![':'] + b + seq![':'] + c + ":xx:xx:xx"@),
        mac_head(a + seq![sep] + (b + seq![sep] + c)) is None,
{
    let f = text::is_either(':', '-');
    lemma_mac_part(a);
    lemma_mac_part(b);
    lemma_mac_part(c);
    lemma_mac_part(d);
    lemma_mac_part(e);
    lemma_mac_part(g);
    let s5 = e + seq![sep] + g;
    let s4 = d + seq![sep] + s5;
    let s3 = c + seq![sep] + s4;
    let s2 = b + seq![sep] + s3;
    text::pieces_are_split_off(g, sep, g, f);
    text::pieces_are_split_off(e, sep, g, f);
    text::pieces_are_split_off(d, sep, s5, f);
    text::pieces_are_split_off(c, sep, s4, f);
    text::pieces_are_split_off(b, sep, s3, f);
    text::pieces_are_split_off(a, sep, s2, f);
    let t2 = b + seq![sep] + c;
    text::pieces_are_split_off(c, sep, c, f);
    text::pieces_are_split_off(b, sep, c, f);
    text::pieces_are_split_off(a, sep, t2, f);
    let all = text::split_by(a + seq![sep] + s2, f);
    let few = text::split_by(a + seq![sep] + t2, f);
    assert(all =~= seq![a, b, c, d, e, g]);
    assert(few =~= seq![a, b, c]);
    lemma_none_dropped(all);
    lemma_none_dropped(few);
    reveal_strlit(":");
    assert(":"@ =~= seq![':']);
}

proof fn lemma_mac_part(s: Seq<char>)
    requires
        mac_part(s),
    ensures
        forall|i: int| 0 <= i < s.len() ==> !text::is_either(':', '-')(#[trigger] s[i]),
{
    assert forall|i: int| 0 <= i < s.len() implies !text::is_either(':', '-')(#[trigger] s[i]) by {
        assert(s.contains(s[i]));
    }
}

proof fn lemma_none_dropped(s: Seq<Seq<char>>)
    requires
        forall|i: int| 0 <= i < s.len() ==> (#[trigger] s[i]).len() > 0,
    ensures
        seqs::collect(s, not_empty()) == s,
    decreases s.len(),
{
    if s.len() > 0 {
        lemma_none_dropped(s.drop_last());
        assert(s.drop_last().push(s.last()) =~= s);
    } else {
        assert(seqs::collect(s, not_empty()) =~= s);
    }
}

/// Multicast DNS works where its name was resolved, is missing where it was not, and nothing is
/// known where nobody answered in time.
pub proof fn multicast_names_are_judged_by_the_answer(outcome: MdnsOutcome)
    ensures
        mdns_state(outcome).status == "ok"@ <==> outcome is Resolved,
        mdns_state(outcome).status == "missing"@ <==> outcome is NotResolved,
        mdns_state(outcome).status == "unknown"@ <==> outcome is TimedOut,
{
    reveal_strlit("ok");
    reveal_strlit("missing");
    reveal_strlit("unknown");
    assert("ok"@.len() == 2);
    assert("missing"@[0] == 'm' && "unknown"@[0] == 'u');
}

/// An interface is shown where it has an IPv4 address, under its own name and with the mask of
/// its own address.
pub proof fn interfaces_are_shown_by_their_addresses(
    v: Seq<InterfaceAddress>,
    x: NetworkInterfaceInfo<Seq<char>>,
    why: Seq<char>,
)
    ensures
        shown_interfaces(Ok(v)).contains(x) <==> exists|j: int|
            0 <= j < v.len() && (#[trigger] v[j]).is_ipv4 && v[j].name@ == x.name && x.ipv4_masked
                == Some(masked_ipv4(v[j].ip@)) && x.mac_masked is None && x.status == "UP"@,
        shown_interfaces(Err(why)).len() == 1,
        shown_interfaces(Err(why))[0].status == why,
        shown_interfaces(Err(why))[0].ipv4_masked is None,
{
    let f = |a: InterfaceAddress| shown_interface(a);
    seqs::lemma_collect_contains(v, f, x);
    if shown_interfaces(Ok(v)).contains(x) {
        let j = choose|j: int| 0 <= j < v.len() && f(#[trigger] v[j]) == Some(x);
        assert(v[j].is_ipv4 && v[j].name@ == x.name);
    }
    if exists|j: int|
        0 <= j < v.len() && (#[trigger] v[j]).is_ipv4 && v[j].name@ == x.name && x.ipv4_masked
            == Some(masked_ipv4(v[j].ip@)) && x.mac_masked is None && x.status == "UP"@ {
        let j = choose|j: int|
            0 <= j < v.len() && (#[trigger] v[j]).is_ipv4 && v[j].name@ == x.name && x.ipv4_masked
                == Some(masked_ipv4(v[j].ip@)) && x.mac_masked is None && x.status == "UP"@;
        assert(f(v[j]) == Some(x));
    }
}

/// A build before 19041 is too old, every later one is not, and one that is not known is no
/// reason to go on.
pub proof fn old_builds_are_told_from_new_ones(a: u32, b: u32)
    ensures
        !recent_enough(None),
        recent_enough(Some(a)) <==> a > 19040,
        recent_enough(Some(a)) && a <= b ==> recent_enough(Some(b)),
{
}

/// The line of a device reads back: the masked serial number before the first colon, the state
/// behind it.
pub proof fn device_lines_read_back(d: AdbDevice<Seq<char>>)
    requires
        !d.serial_masked.contains(':'),
    ensures
        text::parted(device_line(d), ':') == Some((d.serial_masked, d.status)),
{
    text::texts_are_parted_at_the_first(d.serial_masked, ':', d.status);
    reveal_strlit(":");
    assert(":"@ =~= seq![':']);
}

/// Of the devices that are authorized, each has its line, and no other device has one; where all
/// are asked for, each has its line, in order.
pub proof fn authorized_devices_have_their_line(all: Seq<AdbDevice<Seq<char>>>, line: Seq<char>)
    ensures
        seqs::collect(all, line_if(true)).contains(line) <==> exists|j: int|
            0 <= j < all.len() && (#[trigger] all[j]).status == "device"@ && line
                == all[j].serial_masked + ":"@ + "device"@,
        seqs::collect(all, line_if(false)).len() == all.len(),
        forall|j: int|
            0 <= j < all.len() ==> #[trigger] seqs::collect(all, line_if(false))[j]
                == all[j].serial_masked + ":"@ + all[j].status,
{
    let f = line_if(true);
    seqs::lemma_collect_contains(all, f, line);
    if seqs::collect(all, f).contains(line) {
        let j = choose|j: int| 0 <= j < all.len() && f(#[trigger] all[j]) == Some(line);
        assert(all[j].status == "device"@);
    }
    if exists|j: int|
        0 <= j < all.len() && (#[trigger] all[j]).status == "device"@ && line
            == all[j].serial_masked + ":"@ + "device"@ {
        let j = choose|j: int|
            0 <= j < all.len() && (#[trigger] all[j]).status == "device"@ && line
                == all[j].serial_masked + ":"@ + "device"@;
        assert(f(all[j]) == Some(line));
    }
    lemma_all_lines(all);
}

proof fn lemma_all_lines(all: Seq<AdbDevice<Seq<char>>>)
    ensures
        seqs::collect(all, line_if(false)).len() == all.len(),
        forall|j: int|
            0 <= j < all.len() ==> #[trigger] seqs::collect(all, line_if(false))[j] == device_line(
                all[j],
            ),
    decreases all.len(),
{
    if all.len() > 0 {
        lemma_all_lines(all.drop_last());
    }
}

/// What was looked for is there exactly where a path was found, and the path is shown.
pub proof fn tools_are_there_where_they_were_found(
    path: Option<Seq<char>>,
    u: (bool, Option<String>, String),
)
    ensures
        ffmpeg_state(path).status == "ok"@ <==> path is Some,
        ffmpeg_state(path).status == "missing"@ <==> path is None,
        server_state(path).status == "ok"@ <==> path is Some,
        server_state(path).status == "missing"@ <==> path is None,
        path matches Some(p) ==> ffmpeg_state(path).detail.skip(
            ffmpeg_state(path).detail.len() - p.len(),
        ) == p,
        path matches Some(p) ==> server_state(path).detail.skip(
            server_state(path).detail.len() - p.len(),
        ) == p,
        uxplay_state(u).status == "ok"@ <==> u.0,
        uxplay_state(u).status == "missing"@ <==> !u.0,
        !u.0 ==> uxplay_state(u).detail == u.2@,
        u.0 ==> (u.1 matches Some(v) ==> uxplay_state(u).detail.skip(
            uxplay_state(u).detail.len() - v@.len(),
        ) == v@),
{
    reveal_strlit("ok");
    reveal_strlit("missing");
    assert("ok"@.len() != "missing"@.len());
    match path {
        Some(p) => {
            let a = ffmpeg_state(path).detail;
            let b = server_state(path).detail;
            assert(a.skip(a.len() - p.len()) =~= p);
            assert(b.skip(b.len() - p.len()) =~= p);
        },
        None => {},
    }
    match u.1 {
        Some(v) => {
            let a = uxplay_state(u).detail;
            if u.0 {
                assert(a.skip(a.len() - v@.len()) =~= v@);
            }
        },
        None => {},
    }
}

} // verus!
