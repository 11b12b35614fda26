//! Preparing the automation server on an iPhone: what is found is reported item by item, and
//! the preparation goes through fixed steps.
//!
//! A release ships a signed server, which is installed and started the same way on macOS and
//! Windows. Without one, macOS builds the server from its source. No step takes a command from
//! outside.
use vstd::prelude::*;

use crate::integrations::ios_usb_control::WdaEndpoints;
use crate::integrations::usb_devices;
use crate::integrations::usb_devices::{UsbDevice, UsbDeviceKind};
use crate::integrations::wda_source;
use crate::integrations::wda_source::WDA_SOURCE_VERSION;
use crate::integrations::{AdapterError, HostPlatform, ToolRun};
use crate::seqs;
use crate::text;

verus! {

/// One item of a report.
#[derive(Debug)]
pub struct IosWdaCheck<T = String> {
    pub key: T,
    pub title: T,
    /// `ok`, `pending`, `action_required`, `failed` or `unsupported`.
    pub status: T,
    pub detail: T,
}

impl View for IosWdaCheck<String> {
    type V = IosWdaCheck<Seq<char>>;

    open spec fn view(&self) -> IosWdaCheck<Seq<char>> {
        IosWdaCheck {
            key: self.key@,
            title: self.title@,
            status: self.status@,
            detail: self.detail@,
        }
    }
}

/// The contents of a list of items.
pub open spec fn items(v: Seq<IosWdaCheck>) -> Seq<IosWdaCheck<Seq<char>>> {
    Seq::new(v.len(), |i: int| v[i]@)
}

/// A report on the server.
#[derive(Debug)]
pub struct IosWdaSetupReport<T = String, L = Vec<IosWdaCheck>> {
    /// `ready`, `needs_action`, `preparing`, `failed` or `unsupported`.
    pub stage: T,
    pub ready: bool,
    pub device_id_masked: Option<T>,
    pub checks: L,
    pub detail: T,
}

/// The content of a report.
pub type ReportText = IosWdaSetupReport<Seq<char>, Seq<IosWdaCheck<Seq<char>>>>;

impl View for IosWdaSetupReport<String, Vec<IosWdaCheck>> {
    type V = IosWdaSetupReport<Seq<char>, Seq<IosWdaCheck<Seq<char>>>>;

    open spec fn view(&self) -> IosWdaSetupReport<Seq<char>, Seq<IosWdaCheck<Seq<char>>>> {
        IosWdaSetupReport {
            stage: self.stage@,
            ready: self.ready,
            device_id_masked: text::opt_text(self.device_id_masked),
            checks: items(self.checks@),
            detail: self.detail@,
        }
    }
}

/// An item.
pub open spec fn item(
    key: Seq<char>,
    title: Seq<char>,
    status: Seq<char>,
    detail: Seq<char>,
) -> IosWdaCheck<Seq<char>> {
    IosWdaCheck { key, title, status, detail }
}

/// An item.
pub fn check(key: &str, title: &str, status: &str, detail: &str) -> (r: IosWdaCheck)
    ensures
        r@ == item(key@, title@, status@, detail@),
{
    IosWdaCheck {
        key: text::own(key),
        title: text::own(title),
        status: text::own(status),
        detail: text::own(detail),
    }
}

fn add_check(checks: &mut Vec<IosWdaCheck>, key: &str, title: &str, status: &str, detail: &str)
    ensures
        items(final(checks)@) == items(old(checks)@).push(item(key@, title@, status@, detail@)),
{
    let ghost before = checks@;
    let c = check(key, title, status, detail);
    checks.push(c);
    assert(items(checks@) =~= items(before).push(c@));
}

/// Where the first item with a key stands.
pub open spec fn place_of(checks: Seq<IosWdaCheck<Seq<char>>>, key: Seq<char>) -> int {
    seqs::first_from(checks, has_key(key), 0)
}

pub open spec fn has_key(key: Seq<char>) -> spec_fn(IosWdaCheck<Seq<char>>) -> bool {
    |c: IosWdaCheck<Seq<char>>| c.key == key
}

/// Items of which the one with a key has a new status and detail; where there is none, it is
/// added if `add` says so.
pub open spec fn updated(
    checks: Seq<IosWdaCheck<Seq<char>>>,
    key: Seq<char>,
    status: Seq<char>,
    detail: Seq<char>,
    add: bool,
) -> Seq<IosWdaCheck<Seq<char>>> {
    let i = place_of(checks, key);
    if 0 <= i < checks.len() {
        checks.update(i, IosWdaCheck { status, detail, ..checks[i] })
    } else if add {
        checks.push(item(key, key, status, detail))
    } else {
        checks
    }
}

/// Gives the item with a key a new status and detail.
pub fn set_check(
    report: &mut IosWdaSetupReport,
    key: &str,
    status: &str,
    detail: &str,
    add: bool,
)
    ensures
        final(report)@ == (IosWdaSetupReport {
            checks: updated(old(report)@.checks, key@, status@, detail@, add),
            ..old(report)@
        }),
{
    let ghost all = items(report.checks@);
    let ghost f = has_key(key@);
    let n: usize = report.checks.len();
    let mut i: usize = 0;
    while i < n
        invariant
            i <= n,
            n == report.checks@.len(),
            report@ == old(report)@,
            all == items(report.checks@),
            f == has_key(key@),
            forall|j: int| 0 <= j < i ==> !f(#[trigger] all[j]),
        decreases n - i,
    {
        assert(all[i as int] == report.checks@[i as int]@);
        if text::same(report.checks[i].key.as_str(), key) {
            proof {
                seqs::lemma_first_from_is(all, f, 0, i as int);
            }
            let c = IosWdaCheck {
                key: text::own(report.checks[i].key.as_str()),
                title: text::own(report.checks[i].title.as_str()),
                status: text::own(status),
                detail: text::own(detail),
            };
            report.checks.set(i, c);
            assert(items(report.checks@) =~= all.update(i as int, c@));
            return;
        }
        i = i + 1;
    }
    proof {
        seqs::lemma_first_from_is(all, f, 0, i as int);
    }
    if add {
        add_check(&mut report.checks, key, key, status, detail);
    }
}

/// The report of a platform on which there is no such server.
pub open spec fn unsupported_text() -> ReportText {
    IosWdaSetupReport {
        stage: "unsupported"@,
        ready: false,
        device_id_masked: None,
        checks: seq![
            item(
                "platform"@,
                "WDA 自动安装环境"@,
                "unsupported"@,
                "当前平台不支持 iOS WDA 的 USB 安装与 XCTest 启动"@,
            ),
        ],
        detail: "当前平台不能执行 iOS WDA 的签名安装流程"@,
    }
}

fn unsupported_report() -> (r: IosWdaSetupReport)
    ensures
        r@ == unsupported_text(),
{
    let mut checks: Vec<IosWdaCheck> = Vec::new();
    add_check(
        &mut checks,
        "platform",
        "WDA 自动安装环境",
        "unsupported",
        "当前平台不支持 iOS WDA 的 USB 安装与 XCTest 启动",
    );
    assert(items(checks@) =~= unsupported_text().checks);
    IosWdaSetupReport {
        stage: text::own("unsupported"),
        ready: false,
        device_id_masked: None,
        checks,
        detail: text::own("当前平台不能执行 iOS WDA 的签名安装流程"),
    }
}

// ---------------------------------------------------------------------------
// The phone
// ---------------------------------------------------------------------------

/// How the server comes to the phone.
#[derive(Debug, Clone, Copy, PartialEq, Eq, Structural)]
pub enum WdaFlow {
    /// A signed server is shipped.
    Prebuilt,
    /// It is built on this Mac.
    MacSource,
    /// It has to be on the phone already.
    Windows,
    /// There is no way.
    Unsupported,
}

/// How the server comes to the phone on a platform; `shipped` where a signed one is there.
pub open spec fn flow_on(platform: HostPlatform, shipped: bool) -> WdaFlow {
    match platform {
        HostPlatform::Other => WdaFlow::Unsupported,
        HostPlatform::MacOs => if shipped {
            WdaFlow::Prebuilt
        } else {
            WdaFlow::MacSource
        },
        HostPlatform::Windows => if shipped {
            WdaFlow::Prebuilt
        } else {
            WdaFlow::Windows
        },
    }
}

/// How the server comes to the phone on a platform.
pub fn choose_flow(platform: HostPlatform, shipped: bool) -> (r: WdaFlow)
    ensures
        r == flow_on(platform, shipped),
{
    match platform {
        HostPlatform::Other => WdaFlow::Unsupported,
        HostPlatform::MacOs => if shipped {
            WdaFlow::Prebuilt
        } else {
            WdaFlow::MacSource
        },
        HostPlatform::Windows => if shipped {
            WdaFlow::Prebuilt
        } else {
            WdaFlow::Windows
        },
    }
}

/// Whether a device is an iPhone, and the one that is asked for where one is.
pub open spec fn wanted(requested: Option<Seq<char>>) -> spec_fn(UsbDevice<Seq<char>>) -> bool {
    |d: UsbDevice<Seq<char>>|
        d.kind is Iphone && (match requested {
            Some(id) => d.id_masked == id,
            None => true,
        })
}

/// What is said where no phone was found.
pub open spec fn no_phone_text(
    flow: WdaFlow,
    notes: Seq<Seq<char>>,
    requested: Option<Seq<char>>,
) -> Seq<char> {
    match requested {
        Some(id) => "没有找到标识为 "@ + id + (if flow is Prebuilt {
            " 的 USB iPhone"@
        } else {
            " 的 USB iPhone；请保持 USB 连接并解锁设备"@
        }),
        None => if notes.len() == 0 {
            match flow {
                WdaFlow::MacSource => "没有发现通过 USB 连接的 iPhone；请连接、解锁并信任此 Mac"@,
                WdaFlow::Windows => "没有发现 USB iPhone；请连接、解锁并信任此 Windows 电脑"@,
                _ => "没有发现 USB iPhone；请连接、解锁并信任此电脑"@,
            }
        } else if flow is MacSource {
            "没有发现通过 USB 连接的 iPhone；"@ + text::joined(notes, "；"@)
        } else {
            "没有发现 USB iPhone；"@ + text::joined(notes, "；"@)
        },
    }
}

fn say_no_phone(flow: WdaFlow, notes: &Vec<String>, requested: Option<&str>) -> (r: String)
    ensures
        r@ == no_phone_text(
            flow,
            text::texts(notes@),
            match requested {
                Some(s) => Some(s@),
                None => None,
            },
        ),
{
    match requested {
        Some(id) => {
            let after = match flow {
                WdaFlow::Prebuilt => " 的 USB iPhone",
                _ => " 的 USB iPhone；请保持 USB 连接并解锁设备",
            };
            text::cat3("没有找到标识为 ", id, after)
        },
        None => {
            if notes.len() == 0 {
                return match flow {
                    WdaFlow::MacSource => text::own(
                        "没有发现通过 USB 连接的 iPhone；请连接、解锁并信任此 Mac",
                    ),
                    WdaFlow::Windows => text::own(
                        "没有发现 USB iPhone；请连接、解锁并信任此 Windows 电脑",
                    ),
                    _ => text::own("没有发现 USB iPhone；请连接、解锁并信任此电脑"),
                };
            }
            let all = text::join(notes, "；");
            match flow {
                WdaFlow::MacSource => text::cat2(
                    "没有发现通过 USB 连接的 iPhone；",
                    all.as_str(),
                ),
                _ => text::cat2("没有发现 USB iPhone；", all.as_str()),
            }
        },
    }
}

/// Chooses the phone: the iPhone that is asked for, else the first one.
pub fn choose_device(
    flow: WdaFlow,
    devices: &Vec<UsbDevice>,
    notes: &Vec<String>,
    requested: Option<&str>,
) -> (r: Result<UsbDevice, String>)
    ensures
        ({
            let id = match requested {
                Some(s) => Some(s@),
                None => None,
            };
            let all = usb_devices::views(devices@);
            let i = seqs::first_from(all, wanted(id), 0);
            match r {
                Ok(d) => 0 <= i < all.len() && d@ == all[i],
                Err(e) => i == all.len() && e@ == no_phone_text(flow, text::texts(notes@), id),
            }
        }),
{
    let ghost id = match requested {
        Some(s) => Some(s@),
        None => None,
    };
    let ghost f = wanted(id);
    let ghost all = usb_devices::views(devices@);
    let mut i: usize = 0;
    while i < devices.len()
        invariant
            i <= devices@.len(),
            all == usb_devices::views(devices@),
            f == wanted(id),
            id == (match requested {
                Some(s) => Some(s@),
                None => None,
            }),
            forall|j: int| 0 <= j < i ==> !f(#[trigger] all[j]),
        decreases devices@.len() - i,
    {
        assert(all[i as int] == devices@[i as int]@);
        let asked = match requested {
            Some(s) => text::same(devices[i].id_masked.as_str(), s),
            None => true,
        };
        if matches!(devices[i].kind, UsbDeviceKind::Iphone) && asked {
            proof {
                seqs::lemma_first_from_is(all, f, 0, i as int);
            }
            return Ok(devices[i].clone());
        }
        i = i + 1;
    }
    proof {
        seqs::lemma_first_from_is(all, f, 0, i as int);
    }
    Err(say_no_phone(flow, notes, requested))
}

// ---------------------------------------------------------------------------
// Inspection
// ---------------------------------------------------------------------------

/// What was found on this machine.
pub struct SetupFacts {
    /// The file name of the signed server, where one is shipped.
    pub ipa: Option<String>,
    pub installer: bool,
    pub runner: bool,
    pub bundle_id: String,
    pub device: Result<UsbDevice, String>,
    /// The version of the build tool, or why there is none.
    pub xcode: Result<String, String>,
    pub iproxy: bool,
    pub project: bool,
    /// Whether the endpoint of a server is configured.
    pub url_configured: bool,
}

/// Whether the phone is connected.
pub open spec fn connected(f: SetupFacts) -> bool {
    f.device matches Ok(d) && d@.state == "connected"@
}

fn is_connected(f: &SetupFacts) -> (r: bool)
    ensures
        r == connected(*f),
{
    match &f.device {
        Ok(d) => text::same(d.state.as_str(), "connected"),
        Err(_) => false,
    }
}

/// Whether the server is to be asked for its status, and on which phone.
#[derive(Debug)]
pub enum ProbePlan<T = String> {
    Ask { raw_udid: T },
    Skip(AdapterError<T>),
}

impl View for ProbePlan<String> {
    type V = ProbePlan<Seq<char>>;

    open spec fn view(&self) -> ProbePlan<Seq<char>> {
        match self {
            ProbePlan::Ask { raw_udid } => ProbePlan::Ask { raw_udid: raw_udid@ },
            ProbePlan::Skip(e) => ProbePlan::Skip(e@),
        }
    }
}

/// Whether the server is to be asked for its status.
pub open spec fn planned_probe(flow: WdaFlow, f: SetupFacts) -> ProbePlan<Seq<char>> {
    let untrusted = ProbePlan::Skip(
        AdapterError::IosUsbUnavailable("iPhone 尚未完成 USB 配对/信任"@),
    );
    match flow {
        WdaFlow::MacSource => if f.xcode is Err || !f.iproxy {
            ProbePlan::Skip(AdapterError::IosUsbUnavailable("WDA 宿主依赖尚未准备好"@))
        } else if f.url_configured {
            ProbePlan::Ask { raw_udid: ""@ }
        } else {
            match f.device {
                Err(_) => ProbePlan::Skip(
                    AdapterError::IosUsbUnavailable("没有可用于 WDA 检查的 USB iPhone"@),
                ),
                Ok(d) => if connected(f) {
                    ProbePlan::Ask { raw_udid: d@.raw_id }
                } else {
                    untrusted
                },
            }
        },
        WdaFlow::Windows => if !f.iproxy {
            ProbePlan::Skip(AdapterError::IosUsbUnavailable("未找到 iproxy.exe"@))
        } else {
            match f.device {
                Ok(d) => if connected(f) {
                    ProbePlan::Ask { raw_udid: d@.raw_id }
                } else {
                    untrusted
                },
                Err(_) => untrusted,
            }
        },
        _ => match f.device {
            Ok(d) => if connected(f) {
                ProbePlan::Ask { raw_udid: d@.raw_id }
            } else {
                untrusted
            },
            Err(_) => untrusted,
        },
    }
}

fn skip(s: &str) -> (r: ProbePlan)
    ensures
        r@ == ProbePlan::Skip(AdapterError::IosUsbUnavailable(s@)),
{
    ProbePlan::Skip(AdapterError::IosUsbUnavailable(text::own(s)))
}

/// Whether the server is to be asked for its status, and on which phone.
pub fn plan_probe(flow: WdaFlow, f: &SetupFacts) -> (r: ProbePlan)
    ensures
        r@ == planned_probe(flow, *f),
{
    match flow {
        WdaFlow::MacSource => {
            if f.xcode.is_err() || !f.iproxy {
                return skip("WDA 宿主依赖尚未准备好");
            }
            if f.url_configured {
                return ProbePlan::Ask { raw_udid: text::own("") };
            }
            if f.device.is_err() {
                return skip("没有可用于 WDA 检查的 USB iPhone");
            }
        },
        WdaFlow::Windows => {
            if !f.iproxy {
                return skip("未找到 iproxy.exe");
            }
        },
        _ => {},
    }
    match &f.device {
        Ok(d) => if is_connected(f) {
            ProbePlan::Ask { raw_udid: text::own(d.raw_id.as_str()) }
        } else {
            skip("iPhone 尚未完成 USB 配对/信任")
        },
        Err(_) => skip("iPhone 尚未完成 USB 配对/信任"),
    }
}

/// The masked identifier of the phone.
pub open spec fn shown_device(f: SetupFacts) -> Option<Seq<char>> {
    match f.device {
        Ok(d) => Some(d@.id_masked),
        Err(_) => None,
    }
}

fn show_device(f: &SetupFacts) -> (r: Option<String>)
    ensures
        text::opt_text(r) == shown_device(*f),
{
    match &f.device {
        Ok(d) => Some(text::own(d.id_masked.as_str())),
        Err(_) => None,
    }
}

/// The item on the phone where `ready` and `untrusted` are what follows its name.
pub open spec fn device_item(f: SetupFacts, ready: Seq<char>, untrusted: Seq<char>) -> IosWdaCheck<
    Seq<char>,
> {
    match f.device {
        Ok(d) => {
            let name = d@.name + "（"@ + d@.id_masked + "）"@;
            if connected(f) {
                item("device"@, "USB iPhone"@, "ok"@, name + ready)
            } else {
                item(
                    "device"@,
                    "USB iPhone"@,
                    "action_required"@,
                    name + "状态为 "@ + d@.state + untrusted,
                )
            }
        },
        Err(e) => item("device"@, "USB iPhone"@, "action_required"@, e@),
    }
}

fn add_device(checks: &mut Vec<IosWdaCheck>, f: &SetupFacts, ready: &str, untrusted: &str)
    ensures
        items(final(checks)@) == items(old(checks)@).push(device_item(*f, ready@, untrusted@)),
{
    match &f.device {
        Ok(d) => {
            let name = text::cat4(d.name.as_str(), "（", d.id_masked.as_str(), "）");
            if is_connected(f) {
                let detail = text::cat2(name.as_str(), ready);
                add_check(checks, "device", "USB iPhone", "ok", detail.as_str());
            } else {
                let detail = text::cat4(
                    name.as_str(),
                    "状态为 ",
                    d.state.as_str(),
                    untrusted,
                );
                add_check(checks, "device", "USB iPhone", "action_required", detail.as_str());
            }
        },
        Err(e) => {
            add_check(checks, "device", "USB iPhone", "action_required", e.as_str());
        },
    }
}

pub open spec fn probe_view(p: Result<(), AdapterError>) -> Result<(), AdapterError<Seq<char>>> {
    match p {
        Ok(_) => Ok(()),
        Err(e) => Err(e@),
    }
}

/// The report of a Mac that builds the server itself.
pub open spec fn mac_text(f: SetupFacts, probe: Result<(), AdapterError<Seq<char>>>) -> ReportText {
    let ready = probe is Ok;
    IosWdaSetupReport {
        stage: if ready {
            "ready"@
        } else {
            "needs_action"@
        },
        ready,
        device_id_masked: shown_device(f),
        checks: seq![
            item("platform"@, "macOS + Xcode"@, "ok"@, "当前平台支持在应用内准备 WDA"@),
            match f.xcode {
                Ok(v) => item("xcode"@, "Xcode / xcodebuild"@, "ok"@, v@),
                Err(e) => item("xcode"@, "Xcode / xcodebuild"@, "action_required"@, e@),
            },
            device_item(
                f,
                "已连接并可用于签名启动"@,
                "；请解锁 iPhone、信任此 Mac，并开启开发者模式"@,
            ),
            if f.iproxy {
                item("iproxy"@, "USB 隧道 iproxy"@, "ok"@, "已找到 iproxy"@)
            } else {
                item("iproxy"@, "USB 隧道 iproxy"@, "action_required"@, "未找到 iproxy"@)
            },
            if f.project {
                item(
                    "wda_source"@,
                    "WDA 工程"@,
                    "ok"@,
                    "已准备 Appium WebDriverAgent "@ + WDA_SOURCE_VERSION@ + " 源码"@,
                )
            } else {
                item(
                    "wda_source"@,
                    "WDA 工程"@,
                    "pending"@,
                    "点击“一键准备 WDA”后将从官方 npm 源自动获取版本 "@ + WDA_SOURCE_VERSION@,
                )
            },
            match probe {
                Ok(_) => item(
                    "wda_service"@,
                    "WDA 服务"@,
                    "ok"@,
                    "WDA 已在 iPhone 上运行，USB 回环状态检查通过"@,
                ),
                Err(e) => item(
                    "wda_service"@,
                    "WDA 服务"@,
                    "pending"@,
                    "尚未响应："@ + e.message_text(),
                ),
            },
        ],
        detail: if ready {
            "WDA 已可用；开启 iOS USB/WDA 精确控制后重新投屏即可使用绝对坐标"@
        } else {
            match f.device {
                Err(e) => e@,
                Ok(_) => if f.xcode is Err {
                    "请先安装并启动 Xcode，完成 iOS 组件安装"@
                } else {
                    "点击“一键准备 WDA”，应用会继续下载源码、启动签名流程并逐项检查结果"@
                },
            }
        },
    }
}

fn mac_report(f: &SetupFacts, probe: &Result<(), AdapterError>) -> (r: IosWdaSetupReport)
    ensures
        r@ == mac_text(*f, probe_view(*probe)),
{
    let ready = probe.is_ok();
    let mut checks: Vec<IosWdaCheck> = Vec::new();
    add_check(
        &mut checks,
        "platform",
        "macOS + Xcode",
        "ok",
        "当前平台支持在应用内准备 WDA",
    );
    match &f.xcode {
        Ok(v) => add_check(&mut checks, "xcode", "Xcode / xcodebuild", "ok", v.as_str()),
        Err(e) => add_check(
            &mut checks,
            "xcode",
            "Xcode / xcodebuild",
            "action_required",
            e.as_str(),
        ),
    }
    add_device(
        &mut checks,
        f,
        "已连接并可用于签名启动",
        "；请解锁 iPhone、信任此 Mac，并开启开发者模式",
    );
    if f.iproxy {
        add_check(&mut checks, "iproxy", "USB 隧道 iproxy", "ok", "已找到 iproxy");
    } else {
        add_check(
            &mut checks,
            "iproxy",
            "USB 隧道 iproxy",
            "action_required",
            "未找到 iproxy",
        );
    }
    if f.project {
        let s = text::cat3("已准备 Appium WebDriverAgent ", WDA_SOURCE_VERSION, " 源码");
        add_check(&mut checks, "wda_source", "WDA 工程", "ok", s.as_str());
    } else {
        let s = text::cat2(
            "点击“一键准备 WDA”后将从官方 npm 源自动获取版本 ",
            WDA_SOURCE_VERSION,
        );
        add_check(&mut checks, "wda_source", "WDA 工程", "pending", s.as_str());
    }
    match probe {
        Ok(_) => add_check(
            &mut checks,
            "wda_service",
            "WDA 服务",
            "ok",
            "WDA 已在 iPhone 上运行，USB 回环状态检查通过",
        ),
        Err(e) => {
            let s = text::cat2("尚未响应：", e.message().as_str());
            add_check(&mut checks, "wda_service", "WDA 服务", "pending", s.as_str());
        },
    }
    assert(items(checks@) =~= mac_text(*f, probe_view(*probe)).checks);
    let detail = if ready {
        text::own("WDA 已可用；开启 iOS USB/WDA 精确控制后重新投屏即可使用绝对坐标")
    } else {
        match &f.device {
            Err(e) => text::own(e.as_str()),
            Ok(_) => if f.xcode.is_err() {
                text::own("请先安装并启动 Xcode，完成 iOS 组件安装")
            } else {
                text::own(
                    "点击“一键准备 WDA”，应用会继续下载源码、启动签名流程并逐项检查结果",
                )
            },
        }
    };
    IosWdaSetupReport {
        stage: if ready {
            text::own("ready")
        } else {
            text::own("needs_action")
        },
        ready,
        device_id_masked: show_device(f),
        checks,
        detail,
    }
}

/// The report of a Windows machine without a signed server.
pub open spec fn windows_text(f: SetupFacts, ready: bool) -> ReportText {
    IosWdaSetupReport {
        stage: if ready {
            "ready"@
        } else {
            "needs_action"@
        },
        ready,
        device_id_masked: shown_device(f),
        checks: seq![
            item(
                "platform"@,
                "Windows WDA 运行模式"@,
                "ok"@,
                "Windows 不需要 Xcode；发布包由应用安装签名 WDA，并负责启动、USB 转发、状态检查和绝对输入"@,
            ),
            device_item(f, "已连接"@, "；请解锁、信任此电脑，并开启开发者模式"@),
            if f.iproxy {
                item(
                    "iproxy"@,
                    "USB 隧道 iproxy.exe"@,
                    "ok"@,
                    "已找到 iproxy.exe；Windows 运行期不调用 Xcode/xcrun"@,
                )
            } else {
                item(
                    "iproxy"@,
                    "USB 隧道 iproxy.exe"@,
                    "action_required"@,
                    "发布包需要内置经过审计的 iproxy.exe 及其 DLL，或通过 PHONEBRIDGE_IPROXY_PATH 指定"@,
                )
            },
            item(
                "wda_source"@,
                "签名 WDA 包"@,
                "action_required"@,
                "当前构建未内置 WebDriverAgentRunner.ipa；发布包应通过 PHONEBRIDGE_WDA_IPA_PATH 纳入签名包"@,
            ),
            if ready {
                item(
                    "wda_service"@,
                    "WDA 服务"@,
                    "ok"@,
                    "已通过 USB 隧道连接到 iPhone 上运行的 WDA"@,
                )
            } else {
                item(
                    "wda_service"@,
                    "WDA 服务"@,
                    "action_required"@,
                    "未连接到 WDA；点击准备会安装内置签名包并由 go-ios 启动，当前开发构建也可使用已运行的外部 WDA"@,
                )
            },
        ],
        detail: if ready {
            "WDA 已可用；开启 iOS USB/WDA 精确控制后重新投屏即可"@
        } else {
            match f.device {
                Err(e) => e@,
                Ok(_) => "当前 Windows 开发构建没有内置签名 WDA；发布构建会由应用自动安装并启动，开发调试可暂时使用已签名运行的 WDA"@,
            }
        },
    }
}

fn windows_report(f: &SetupFacts, ready: bool) -> (r: IosWdaSetupReport)
    ensures
        r@ == windows_text(*f, ready),
{
    let mut checks: Vec<IosWdaCheck> = Vec::new();
    add_check(
        &mut checks,
        "platform",
        "Windows WDA 运行模式",
        "ok",
        "Windows 不需要 Xcode；发布包由应用安装签名 WDA，并负责启动、USB 转发、状态检查和绝对输入",
    );
    add_device(&mut checks, f, "已连接", "；请解锁、信任此电脑，并开启开发者模式");
    if f.iproxy {
        add_check(
            &mut checks,
            "iproxy",
            "USB 隧道 iproxy.exe",
            "ok",
            "已找到 iproxy.exe；Windows 运行期不调用 Xcode/xcrun",
        );
    } else {
        add_check(
            &mut checks,
            "iproxy",
            "USB 隧道 iproxy.exe",
            "action_required",
            "发布包需要内置经过审计的 iproxy.exe 及其 DLL，或通过 PHONEBRIDGE_IPROXY_PATH 指定",
        );
    }
    add_check(
        &mut checks,
        "wda_source",
        "签名 WDA 包",
        "action_required",
        "当前构建未内置 WebDriverAgentRunner.ipa；发布包应通过 PHONEBRIDGE_WDA_IPA_PATH 纳入签名包",
    );
    if ready {
        add_check(
            &mut checks,
            "wda_service",
            "WDA 服务",
            "ok",
            "已通过 USB 隧道连接到 iPhone 上运行的 WDA",
        );
    } else {
        add_check(
            &mut checks,
            "wda_service",
            "WDA 服务",
            "action_required",
            "未连接到 WDA；点击准备会安装内置签名包并由 go-ios 启动，当前开发构建也可使用已运行的外部 WDA",
        );
    }
    assert(items(checks@) =~= windows_text(*f, ready).checks);
    let detail = if ready {
        text::own("WDA 已可用；开启 iOS USB/WDA 精确控制后重新投屏即可")
    } else {
        match &f.device {
            Err(e) => text::own(e.as_str()),
            Ok(_) => text::own(
                "当前 Windows 开发构建没有内置签名 WDA；发布构建会由应用自动安装并启动，开发调试可暂时使用已签名运行的 WDA",
            ),
        }
    };
    IosWdaSetupReport {
        stage: if ready {
            text::own("ready")
        } else {
            text::own("needs_action")
        },
        ready,
        device_id_masked: show_device(f),
        checks,
        detail,
    }
}

/// The file name of the signed server.
pub open spec fn ipa_name(f: SetupFacts) -> Seq<char> {
    match f.ipa {
        Some(s) => s@,
        None => Seq::empty(),
    }
}

/// The report where a signed server is shipped, before it was asked for its status.
pub open spec fn base_text(f: SetupFacts) -> ReportText {
    IosWdaSetupReport {
        stage: "needs_action"@,
        ready: false,
        device_id_masked: shown_device(f),
        checks: seq![
            item(
                "platform"@,
                "WDA 运行方式"@,
                "ok"@,
                "使用内置签名 IPA + go-ios；macOS 和 Windows 走同一套安装/启动流程"@,
            ),
            item(
                "wda_artifact"@,
                "签名 WDA 包"@,
                "ok"@,
                "已找到 "@ + ipa_name(f) + "（构建时会记录 SHA-256）"@,
            ),
            item("wda_bundle_id"@, "WDA Bundle ID"@, "ok"@, f.bundle_id@),
            if f.installer {
                item(
                    "ideviceinstaller"@,
                    "iOS 安装器"@,
                    "ok"@,
                    "已找到 ideviceinstaller，应用可直接安装 WDA"@,
                )
            } else {
                item(
                    "ideviceinstaller"@,
                    "iOS 安装器"@,
                    "action_required"@,
                    "缺少 ideviceinstaller；发布包需要内置对应平台的审计构建物和 DLL"@,
                )
            },
            if f.runner {
                item(
                    "go_ios"@,
                    "WDA 启动器 / USB 隧道"@,
                    "ok"@,
                    "已找到 go-ios，应用可启动 WDA 并建立本机回环端口"@,
                )
            } else {
                item(
                    "go_ios"@,
                    "WDA 启动器 / USB 隧道"@,
                    "action_required"@,
                    "缺少 go-ios；Windows 不能用 xcodebuild，macOS 也无法完成跨平台直接启动"@,
                )
            },
            match f.device {
                Ok(d) => if connected(f) {
                    item(
                        "device"@,
                        "USB iPhone"@,
                        "ok"@,
                        d@.name + "（"@ + d@.id_masked + "）已连接"@,
                    )
                } else {
                    item(
                        "device"@,
                        "USB iPhone"@,
                        "action_required"@,
                        "设备状态为 "@ + d@.state + "；请解锁并信任此电脑"@,
                    )
                },
                Err(e) => item("device"@, "USB iPhone"@, "action_required"@, e@),
            },
            item(
                "wda_service"@,
                "WDA 服务"@,
                "pending"@,
                "尚未验证；点击准备后应用会安装、启动并轮询 /status"@,
            ),
        ],
        detail: "应用会安装内置签名 WDA，并用 go-ios 启动 XCTest runner；首次运行仍可能需要 iPhone 的开发者模式/信任确认"@,
    }
}

fn base_report(f: &SetupFacts) -> (r: IosWdaSetupReport)
    ensures
        r@ == base_text(*f),
{
    let mut checks: Vec<IosWdaCheck> = Vec::new();
    add_check(
        &mut checks,
        "platform",
        "WDA 运行方式",
        "ok",
        "使用内置签名 IPA + go-ios；macOS 和 Windows 走同一套安装/启动流程",
    );
    let name = match &f.ipa {
        Some(s) => text::own(s.as_str()),
        None => String::new(),
    };
    let artifact = text::cat3("已找到 ", name.as_str(), "（构建时会记录 SHA-256）");
    add_check(&mut checks, "wda_artifact", "签名 WDA 包", "ok", artifact.as_str());
    add_check(&mut checks, "wda_bundle_id", "WDA Bundle ID", "ok", f.bundle_id.as_str());
    if f.installer {
        add_check(
            &mut checks,
            "ideviceinstaller",
            "iOS 安装器",
            "ok",
            "已找到 ideviceinstaller，应用可直接安装 WDA",
        );
    } else {
        add_check(
            &mut checks,
            "ideviceinstaller",
            "iOS 安装器",
            "action_required",
            "缺少 ideviceinstaller；发布包需要内置对应平台的审计构建物和 DLL",
        );
    }
    if f.runner {
        add_check(
            &mut checks,
            "go_ios",
            "WDA 启动器 / USB 隧道",
            "ok",
            "已找到 go-ios，应用可启动 WDA 并建立本机回环端口",
        );
    } else {
        add_check(
            &mut checks,
            "go_ios",
            "WDA 启动器 / USB 隧道",
            "action_required",
            "缺少 go-ios；Windows 不能用 xcodebuild，macOS 也无法完成跨平台直接启动",
        );
    }
    match &f.device {
        Ok(d) => {
            if is_connected(f) {
                let s = text::cat4(d.name.as_str(), "（", d.id_masked.as_str(), "）已连接");
                add_check(&mut checks, "device", "USB iPhone", "ok", s.as_str());
            } else {
                let s = text::cat3(
                    "设备状态为 ",
                    d.state.as_str(),
                    "；请解锁并信任此电脑",
                );
                add_check(&mut checks, "device", "USB iPhone", "action_required", s.as_str());
            }
        },
        Err(e) => {
            add_check(&mut checks, "device", "USB iPhone", "action_required", e.as_str());
        },
    }
    add_check(
        &mut checks,
        "wda_service",
        "WDA 服务",
        "pending",
        "尚未验证；点击准备后应用会安装、启动并轮询 /status",
    );
    assert(items(checks@) =~= base_text(*f).checks) by {
        assert(name@ =~= ipa_name(*f));
    }
    IosWdaSetupReport {
        stage: text::own("needs_action"),
        ready: false,
        device_id_masked: show_device(f),
        checks,
        detail: text::own(
            "应用会安装内置签名 WDA，并用 go-ios 启动 XCTest runner；首次运行仍可能需要 iPhone 的开发者模式/信任确认",
        ),
    }
}

/// A report with a stage, a text, and what that says of the server.
pub open spec fn settled(
    report: ReportText,
    stage: Seq<char>,
    ready: bool,
    detail: Seq<char>,
    status: Seq<char>,
    service: Seq<char>,
    add: bool,
) -> ReportText {
    IosWdaSetupReport {
        stage,
        ready,
        device_id_masked: report.device_id_masked,
        checks: updated(report.checks, "wda_service"@, status, service, add),
        detail,
    }
}

fn settle(
    report: &mut IosWdaSetupReport,
    stage: &str,
    ready: bool,
    detail: &str,
    status: &str,
    service: &str,
    add: bool,
)
    ensures
        final(report)@ == settled(
            old(report)@,
            stage@,
            ready,
            detail@,
            status@,
            service@,
            add,
        ),
{
    report.stage = text::own(stage);
    report.ready = ready;
    report.detail = text::own(detail);
    set_check(report, "wda_service", status, service, add);
}

/// The report on the server, `probe` being what came of the probe that was planned.
pub open spec fn inspection(
    flow: WdaFlow,
    f: SetupFacts,
    probe: Result<(), AdapterError<Seq<char>>>,
) -> ReportText {
    match flow {
        WdaFlow::Unsupported => unsupported_text(),
        WdaFlow::MacSource => mac_text(f, probe),
        WdaFlow::Windows => windows_text(f, probe is Ok),
        WdaFlow::Prebuilt => if connected(f) && probe is Ok {
            settled(
                base_text(f),
                "ready"@,
                true,
                "内置 WDA 已在设备上运行；应用已验证 USB 控制服务"@,
                "ok"@,
                "已通过 USB 回环连接到 WDA"@,
                false,
            )
        } else {
            base_text(f)
        },
    }
}

/// Reports on the server. Nothing is changed on the phone or on this machine.
pub fn inspect(flow: WdaFlow, f: &SetupFacts, probe: &Result<(), AdapterError>) -> (r:
    IosWdaSetupReport)
    ensures
        r@ == inspection(flow, *f, probe_view(*probe)),
{
    match flow {
        WdaFlow::Unsupported => unsupported_report(),
        WdaFlow::MacSource => mac_report(f, probe),
        WdaFlow::Windows => windows_report(f, probe.is_ok()),
        WdaFlow::Prebuilt => {
            let mut report = base_report(f);
            if is_connected(f) && probe.is_ok() {
                settle(
                    &mut report,
                    "ready",
                    true,
                    "内置 WDA 已在设备上运行；应用已验证 USB 控制服务",
                    "ok",
                    "已通过 USB 回环连接到 WDA",
                    false,
                );
            }
            report
        },
    }
}

/// The server is reported ready exactly where it answered on a platform that can use it; a
/// shipped server also needs a connected phone.
pub proof fn ready_means_it_answered(
    flow: WdaFlow,
    f: SetupFacts,
    probe: Result<(), AdapterError<Seq<char>>>,
)
    ensures
        inspection(flow, f, probe).ready == (probe is Ok && !(flow is Unsupported) && (flow
            is Prebuilt ==> connected(f))),
        inspection(flow, f, probe).ready == (inspection(flow, f, probe).stage == "ready"@),
{
    reveal_strlit("ready");
    reveal_strlit("needs_action");
    reveal_strlit("unsupported");
    assert("ready"@.len() != "needs_action"@.len());
    assert("ready"@.len() != "unsupported"@.len());
}

// ---------------------------------------------------------------------------
// Preparation
// ---------------------------------------------------------------------------

/// What the preparation is to do next.
#[derive(Debug, Clone, Copy, PartialEq, Eq, Structural)]
pub enum PrepareStep {
    /// Nothing: the report stands.
    Finished,
    /// Ask the build tool for its version.
    CheckXcode,
    /// Find the tunnel tool, or install it.
    EnsureIproxy,
    /// Fetch the source.
    Download,
    /// Ask the server for its status.
    Probe,
    /// Install the signed server.
    Install,
    /// Start the signed server.
    StartRunner,
    /// Build, install and start the server.
    Launch,
    /// Wait for the server to answer.
    Wait,
}

/// A preparation: its report so far, and what it is to do next.
#[derive(Debug)]
pub struct WdaPreparation<R = IosWdaSetupReport> {
    pub flow: WdaFlow,
    pub step: PrepareStep,
    pub report: R,
    /// Whether the project is there.
    pub project: bool,
}

impl View for WdaPreparation<IosWdaSetupReport> {
    type V = WdaPreparation<IosWdaSetupReport<Seq<char>, Seq<IosWdaCheck<Seq<char>>>>>;

    open spec fn view(&self) -> WdaPreparation<
        IosWdaSetupReport<Seq<char>, Seq<IosWdaCheck<Seq<char>>>>,
    > {
        WdaPreparation {
            flow: self.flow,
            step: self.step,
            report: self.report@,
            project: self.project,
        }
    }
}

/// Where a preparation begins, `probe` being what came of the probe that was planned for a
/// server that is not shipped.
pub open spec fn first_step(
    flow: WdaFlow,
    f: SetupFacts,
    probe: Result<(), AdapterError<Seq<char>>>,
) -> WdaPreparation<ReportText> {
    let finished = |report: ReportText|
        WdaPreparation { flow, step: PrepareStep::Finished, report, project: f.project };
    match flow {
        WdaFlow::Unsupported => finished(unsupported_text()),
        WdaFlow::Prebuilt => if f.device is Err || !f.installer || !f.runner {
            finished(base_text(f))
        } else if !connected(f) {
            finished(
                IosWdaSetupReport {
                    detail: "请先解锁 iPhone、信任此电脑并开启开发者模式"@,
                    ..base_text(f)
                },
            )
        } else {
            WdaPreparation {
                flow,
                step: PrepareStep::Probe,
                report: base_text(f),
                project: f.project,
            }
        },
        WdaFlow::MacSource => {
            let report = mac_text(f, probe);
            if report.ready || f.device is Err {
                finished(report)
            } else if !connected(f) {
                let detail = "iPhone 当前状态为 "@ + (f.device->Ok_0)@.state
                    + "；请在手机上解锁、信任此 Mac，并开启开发者模式后重试"@;
                finished(
                    IosWdaSetupReport {
                        detail,
                        checks: updated(
                            report.checks,
                            "device"@,
                            "action_required"@,
                            detail,
                            true,
                        ),
                        ..report
                    },
                )
            } else {
                WdaPreparation {
                    flow,
                    step: PrepareStep::CheckXcode,
                    report,
                    project: f.project,
                }
            }
        },
        WdaFlow::Windows => {
            let report = windows_text(f, probe is Ok);
            finished(
                if report.ready || f.device is Err {
                    report
                } else if !connected(f) {
                    IosWdaSetupReport {
                        detail: "请先解锁 iPhone、信任此 Windows 电脑并开启开发者模式，再点击准备"@,
                        ..report
                    }
                } else if !f.iproxy {
                    IosWdaSetupReport {
                        stage: "failed"@,
                        detail: "Windows 端缺少 iproxy.exe；发布包必须内置经过审计的 iproxy.exe 及其 DLL"@,
                        ..report
                    }
                } else {
                    IosWdaSetupReport {
                        stage: "needs_action"@,
                        detail: "Windows 已具备 USB 通道，但 WDA 尚未运行。请用已签名的 WDA 运行器启动一次；启动后再次点击此按钮，应用会自动验证并切换到精确控制"@,
                        ..report
                    }
                },
            )
        },
    }
}

/// Begins a preparation.
pub fn prepare(flow: WdaFlow, f: &SetupFacts, probe: &Result<(), AdapterError>) -> (r:
    WdaPreparation)
    ensures
        r@ == first_step(flow, *f, probe_view(*probe)),
{
    let project = f.project;
    let mut step = PrepareStep::Finished;
    let report = match flow {
        WdaFlow::Unsupported => unsupported_report(),
        WdaFlow::Prebuilt => {
            let mut report = base_report(f);
            if f.device.is_ok() && f.installer && f.runner {
                if is_connected(f) {
                    step = PrepareStep::Probe;
                } else {
                    report.detail = text::own("请先解锁 iPhone、信任此电脑并开启开发者模式");
                }
            }
            report
        },
        WdaFlow::MacSource => {
            let mut report = mac_report(f, probe);
            if !report.ready {
                match &f.device {
                    Err(_) => {},
                    Ok(d) => {
                        if is_connected(f) {
                            step = PrepareStep::CheckXcode;
                        } else {
                            let detail = text::cat3(
                                "iPhone 当前状态为 ",
                                d.state.as_str(),
                                "；请在手机上解锁、信任此 Mac，并开启开发者模式后重试",
                            );
                            report.detail = text::own(detail.as_str());
                            set_check(
                                &mut report,
                                "device",
                                "action_required",
                                detail.as_str(),
                                true,
                            );
                        }
                    },
                }
            }
            report
        },
        WdaFlow::Windows => {
            let mut report = windows_report(f, probe.is_ok());
            if !report.ready && f.device.is_ok() {
                if !is_connected(f) {
                    report.detail =
                    text::own("请先解锁 iPhone、信任此 Windows 电脑并开启开发者模式，再点击准备");
                } else if !f.iproxy {
                    report.stage = text::own("failed");
                    report.detail =
                    text::own(
                        "Windows 端缺少 iproxy.exe；发布包必须内置经过审计的 iproxy.exe 及其 DLL",
                    );
                } else {
                    report.stage = text::own("needs_action");
                    report.detail =
                    text::own(
                        "Windows 已具备 USB 通道，但 WDA 尚未运行。请用已签名的 WDA 运行器启动一次；启动后再次点击此按钮，应用会自动验证并切换到精确控制",
                    );
                }
            }
            report
        },
    };
    WdaPreparation { flow, step, report, project }
}

/// A report of a failure that an item shows.
pub open spec fn failing(report: ReportText, key: Seq<char>, why: Seq<char>, add: bool) -> ReportText {
    IosWdaSetupReport {
        stage: "failed"@,
        detail: why,
        checks: updated(report.checks, key, "failed"@, why, add),
        ..report
    }
}

fn fail_report(report: &mut IosWdaSetupReport, key: &str, why: &str, add: bool)
    ensures
        final(report)@ == failing(old(report)@, key@, why@, add),
{
    report.stage = text::own("failed");
    report.detail = text::own(why);
    set_check(report, key, "failed", why, add);
}

/// A report with a new status of an item that is there or is added.
pub open spec fn noting(report: ReportText, key: Seq<char>, status: Seq<char>, detail: Seq<char>) -> ReportText {
    IosWdaSetupReport { checks: updated(report.checks, key, status, detail, true), ..report }
}

impl WdaPreparation<ReportText> {
    pub open spec fn finished(self, report: ReportText) -> WdaPreparation<ReportText> {
        WdaPreparation { step: PrepareStep::Finished, report, ..self }
    }

    /// After the build tool was asked for its version; `failure` is why it has none.
    pub open spec fn after_xcode(self, failure: Option<Seq<char>>) -> WdaPreparation<ReportText> {
        if !(self.step is CheckXcode) {
            self
        } else {
            match failure {
                Some(why) => self.finished(
                    IosWdaSetupReport {
                        detail: why,
                        ..noting(self.report, "xcode"@, "action_required"@, why)
                    },
                ),
                None => WdaPreparation { step: PrepareStep::EnsureIproxy, ..self },
            }
        }
    }

    /// After the tunnel tool was looked for; `failure` is why there is none.
    pub open spec fn after_iproxy(self, failure: Option<Seq<char>>) -> WdaPreparation<ReportText> {
        if !(self.step is EnsureIproxy) {
            self
        } else {
            match failure {
                Some(why) => self.finished(failing(self.report, "iproxy"@, why, true)),
                None => WdaPreparation {
                    step: if self.project {
                        PrepareStep::Probe
                    } else {
                        PrepareStep::Download
                    },
                    report: noting(
                        self.report,
                        "iproxy"@,
                        "ok"@,
                        "已找到或已由 Homebrew 准备 iproxy"@,
                    ),
                    ..self
                },
            }
        }
    }

    /// After the source was fetched; `failure` is why it was not.
    pub open spec fn after_download(self, failure: Option<Seq<char>>) -> WdaPreparation<ReportText> {
        if !(self.step is Download) {
            self
        } else {
            match failure {
                Some(why) => self.finished(failing(self.report, "wda_source"@, why, true)),
                None => WdaPreparation {
                    step: PrepareStep::Probe,
                    report: noting(
                        self.report,
                        "wda_source"@,
                        "ok"@,
                        "已自动获取并准备 WDA "@ + WDA_SOURCE_VERSION@ + " 源码"@,
                    ),
                    project: true,
                    ..self
                },
            }
        }
    }

    /// After the server was asked for its status.
    pub open spec fn after_probe(self, answers: bool) -> WdaPreparation<ReportText> {
        if !(self.step is Probe) {
            self
        } else if self.flow is Prebuilt {
            if answers {
                self.finished(
                    settled(
                        self.report,
                        "ready"@,
                        true,
                        "WDA 已经在设备上运行；应用已验证 USB 控制服务"@,
                        "ok"@,
                        "已通过 USB 隧道连接到 WDA"@,
                        false,
                    ),
                )
            } else {
                WdaPreparation { step: PrepareStep::Install, ..self }
            }
        } else {
            if answers {
                self.finished(
                    settled(
                        self.report,
                        "ready"@,
                        true,
                        "WDA 已经在 iPhone 上运行；开启 iOS USB/WDA 精确控制后重新投屏即可"@,
                        "ok"@,
                        "WDA 已在 iPhone 上运行，USB 回环状态检查通过"@,
                        true,
                    ),
                )
            } else {
                WdaPreparation { step: PrepareStep::Launch, ..self }
            }
        }
    }

    /// After the signed server was installed; `failure` is why it was not.
    pub open spec fn after_install(self, failure: Option<Seq<char>>) -> WdaPreparation<ReportText> {
        if !(self.step is Install) {
            self
        } else {
            match failure {
                Some(why) => self.finished(failing(self.report, "wda_service"@, why, false)),
                None => WdaPreparation { step: PrepareStep::StartRunner, ..self },
            }
        }
    }

    /// After the signed server was started; `failure` is why it was not.
    pub open spec fn after_runner(self, failure: Option<Seq<char>>) -> WdaPreparation<ReportText> {
        let waiting = "正在安装并启动内置 WDA；首次运行可能需要在 iPhone 上确认开发者模式/信任"@;
        if !(self.step is StartRunner) {
            self
        } else {
            match failure {
                Some(why) => self.finished(failing(self.report, "wda_service"@, why, false)),
                None => WdaPreparation {
                    step: PrepareStep::Wait,
                    report: IosWdaSetupReport {
                        stage: "preparing"@,
                        detail: waiting,
                        checks: {
                            let i = place_of(self.report.checks, "wda_service"@);
                            if 0 <= i < self.report.checks.len() {
                                self.report.checks.update(
                                    i,
                                    IosWdaCheck { detail: waiting, ..self.report.checks[i] },
                                )
                            } else {
                                self.report.checks
                            }
                        },
                        ..self.report
                    },
                    ..self
                },
            }
        }
    }

    /// After the build was started; `failure` is why it was not.
    pub open spec fn after_launch(self, failure: Option<Seq<char>>) -> WdaPreparation<ReportText> {
        let waiting = "正在通过 Xcode 签名、安装并启动 WDA；首次运行可能需要在 iPhone 上确认开发者模式/信任"@;
        if !(self.step is Launch) {
            self
        } else {
            match failure {
                Some(why) => self.finished(failing(self.report, "wda_service"@, why, true)),
                None => WdaPreparation {
                    step: PrepareStep::Wait,
                    report: IosWdaSetupReport {
                        stage: "preparing"@,
                        detail: waiting,
                        checks: updated(
                            self.report.checks,
                            "wda_service"@,
                            "pending"@,
                            waiting,
                            true,
                        ),
                        ..self.report
                    },
                    ..self
                },
            }
        }
    }

    /// What is said of a runner that ended, well or not.
    pub open spec fn ended_text(self, well: bool, log: Seq<char>) -> Seq<char> {
        if !well {
            "WDA 启动失败："@ + log
        } else if self.flow is Prebuilt {
            "go-ios 已结束，但 WDA 没有响应；请检查开发者模式和签名 profile"@
        } else {
            "xcodebuild 已结束，但 WDA 没有响应；请确认 iPhone 处于解锁状态并重试"@
        }
    }

    /// What is said of a server that did not answer in time.
    pub open spec fn late_text(self, log: Seq<char>) -> Seq<char> {
        "等待 WDA 超时："@ + log + (if self.flow is Prebuilt {
            "；请检查开发者模式、设备信任和签名 profile"@
        } else {
            "；请查看 Xcode 签名/开发者模式提示后重试"@
        })
    }

    /// After the server was waited for: whether it answers, whether and how its runner ended,
    /// whether the time is up, and what its log shows.
    pub open spec fn after_wait(
        self,
        answers: bool,
        ended: Option<bool>,
        time_is_up: bool,
        log: Seq<char>,
    ) -> WdaPreparation<ReportText> {
        let add = !(self.flow is Prebuilt);
        if !(self.step is Wait) {
            self
        } else if answers {
            self.finished(
                if self.flow is Prebuilt {
                    settled(
                        self.report,
                        "ready"@,
                        true,
                        "内置签名 WDA 已安装并启动；现在可以重新投屏使用 USB/WDA 精确控制"@,
                        "ok"@,
                        "WDA /status 已响应"@,
                        false,
                    )
                } else {
                    settled(
                        self.report,
                        "ready"@,
                        true,
                        "WDA 已由应用完成启动；现在可以开启 iOS USB/WDA 精确控制并重新投屏"@,
                        "ok"@,
                        "WDA 已在 iPhone 上运行，USB 回环状态检查通过"@,
                        true,
                    )
                },
            )
        } else {
            match ended {
                Some(well) => self.finished(
                    failing(self.report, "wda_service"@, self.ended_text(well, log), add),
                ),
                None => if time_is_up {
                    self.finished(failing(self.report, "wda_service"@, self.late_text(log), add))
                } else {
                    self
                },
            }
        }
    }
}

impl WdaPreparation {
    /// Goes on once the build tool was asked for its version.
    pub fn xcode_checked(&mut self, failure: &Option<String>)
        ensures
            final(self)@ == old(self)@.after_xcode(text::opt_text(*failure)),
    {
        if matches!(self.step, PrepareStep::CheckXcode) {
            match failure {
                Some(why) => {
                    self.step = PrepareStep::Finished;
                    self.report.detail = text::own(why.as_str());
                    set_check(&mut self.report, "xcode", "action_required", why.as_str(), true);
                },
                None => {
                    self.step = PrepareStep::EnsureIproxy;
                },
            }
        }
    }

    /// Goes on once the tunnel tool was looked for.
    pub fn iproxy_ensured(&mut self, failure: &Option<String>)
        ensures
            final(self)@ == old(self)@.after_iproxy(text::opt_text(*failure)),
    {
        if matches!(self.step, PrepareStep::EnsureIproxy) {
            match failure {
                Some(why) => {
                    self.step = PrepareStep::Finished;
                    fail_report(&mut self.report, "iproxy", why.as_str(), true);
                },
                None => {
                    self.step = if self.project {
                        PrepareStep::Probe
                    } else {
                        PrepareStep::Download
                    };
                    set_check(
                        &mut self.report,
                        "iproxy",
                        "ok",
                        "已找到或已由 Homebrew 准备 iproxy",
                        true,
                    );
                },
            }
        }
    }

    /// Goes on once the source was fetched.
    pub fn source_fetched(&mut self, failure: &Option<String>)
        ensures
            final(self)@ == old(self)@.after_download(text::opt_text(*failure)),
    {
        if matches!(self.step, PrepareStep::Download) {
            match failure {
                Some(why) => {
                    self.step = PrepareStep::Finished;
                    fail_report(&mut self.report, "wda_source", why.as_str(), true);
                },
                None => {
                    self.step = PrepareStep::Probe;
                    self.project = true;
                    let s = text::cat3(
                        "已自动获取并准备 WDA ",
                        WDA_SOURCE_VERSION,
                        " 源码",
                    );
                    set_check(&mut self.report, "wda_source", "ok", s.as_str(), true);
                },
            }
        }
    }

    /// Goes on once the server was asked for its status.
    pub fn probed(&mut self, answers: bool)
        ensures
            final(self)@ == old(self)@.after_probe(answers),
    {
        if matches!(self.step, PrepareStep::Probe) {
            if matches!(self.flow, WdaFlow::Prebuilt) {
                if answers {
                    self.step = PrepareStep::Finished;
                    settle(
                        &mut self.report,
                        "ready",
                        true,
                        "WDA 已经在设备上运行；应用已验证 USB 控制服务",
                        "ok",
                        "已通过 USB 隧道连接到 WDA",
                        false,
                    );
                } else {
                    self.step = PrepareStep::Install;
                }
            } else {
                if answers {
                    self.step = PrepareStep::Finished;
                    settle(
                        &mut self.report,
                        "ready",
                        true,
                        "WDA 已经在 iPhone 上运行；开启 iOS USB/WDA 精确控制后重新投屏即可",
                        "ok",
                        "WDA 已在 iPhone 上运行，USB 回环状态检查通过",
                        true,
                    );
                } else {
                    self.step = PrepareStep::Launch;
                }
            }
        }
    }

    /// Goes on once the signed server was installed.
    pub fn installed(&mut self, failure: &Option<String>)
        ensures
            final(self)@ == old(self)@.after_install(text::opt_text(*failure)),
    {
        if matches!(self.step, PrepareStep::Install) {
            match failure {
                Some(why) => {
                    self.step = PrepareStep::Finished;
                    fail_report(&mut self.report, "wda_service", why.as_str(), false);
                },
                None => {
                    self.step = PrepareStep::StartRunner;
                },
            }
        }
    }

    /// Goes on once the signed server was started.
    pub fn runner_started(&mut self, failure: &Option<String>)
        ensures
            final(self)@ == old(self)@.after_runner(text::opt_text(*failure)),
    {
        if matches!(self.step, PrepareStep::StartRunner) {
            match failure {
                Some(why) => {
                    self.step = PrepareStep::Finished;
                    fail_report(&mut self.report, "wda_service", why.as_str(), false);
                },
                None => {
                    self.step = PrepareStep::Wait;
                    self.report.stage = text::own("preparing");
                    self.report.detail =
                    text::own(
                        "正在安装并启动内置 WDA；首次运行可能需要在 iPhone 上确认开发者模式/信任",
                    );
                    set_detail(
                        &mut self.report,
                        "wda_service",
                        "正在安装并启动内置 WDA；首次运行可能需要在 iPhone 上确认开发者模式/信任",
                    );
                },
            }
        }
    }

    /// Goes on once the build was started.
    pub fn launched(&mut self, failure: &Option<String>)
        ensures
            final(self)@ == old(self)@.after_launch(text::opt_text(*failure)),
    {
        if matches!(self.step, PrepareStep::Launch) {
            match failure {
                Some(why) => {
                    self.step = PrepareStep::Finished;
                    fail_report(&mut self.report, "wda_service", why.as_str(), true);
                },
                None => {
                    self.step = PrepareStep::Wait;
                    self.report.stage = text::own("preparing");
                    self.report.detail =
                    text::own(
                        "正在通过 Xcode 签名、安装并启动 WDA；首次运行可能需要在 iPhone 上确认开发者模式/信任",
                    );
                    set_check(
                        &mut self.report,
                        "wda_service",
                        "pending",
                        "正在通过 Xcode 签名、安装并启动 WDA；首次运行可能需要在 iPhone 上确认开发者模式/信任",
                        true,
                    );
                },
            }
        }
    }

    /// Goes on once the server was waited for.
    pub fn waited(&mut self, answers: bool, ended: Option<bool>, time_is_up: bool, log: &str)
        ensures
            final(self)@ == old(self)@.after_wait(answers, ended, time_is_up, log@),
    {
        if matches!(self.step, PrepareStep::Wait) {
            let prebuilt = matches!(self.flow, WdaFlow::Prebuilt);
            if answers {
                self.step = PrepareStep::Finished;
                if prebuilt {
                    settle(
                        &mut self.report,
                        "ready",
                        true,
                        "内置签名 WDA 已安装并启动；现在可以重新投屏使用 USB/WDA 精确控制",
                        "ok",
                        "WDA /status 已响应",
                        false,
                    );
                } else {
                    settle(
                        &mut self.report,
                        "ready",
                        true,
                        "WDA 已由应用完成启动；现在可以开启 iOS USB/WDA 精确控制并重新投屏",
                        "ok",
                        "WDA 已在 iPhone 上运行，USB 回环状态检查通过",
                        true,
                    );
                }
                return;
            }
            match ended {
                Some(well) => {
                    let why = if !well {
                        text::cat2("WDA 启动失败：", log)
                    } else if prebuilt {
                        text::own(
                            "go-ios 已结束，但 WDA 没有响应；请检查开发者模式和签名 profile",
                        )
                    } else {
                        text::own(
                            "xcodebuild 已结束，但 WDA 没有响应；请确认 iPhone 处于解锁状态并重试",
                        )
                    };
                    self.step = PrepareStep::Finished;
                    fail_report(&mut self.report, "wda_service", why.as_str(), !prebuilt);
                },
                None => {
                    if time_is_up {
                        let after = if prebuilt {
                            "；请检查开发者模式、设备信任和签名 profile"
                        } else {
                            "；请查看 Xcode 签名/开发者模式提示后重试"
                        };
                        let why = text::cat3("等待 WDA 超时：", log, after);
                        self.step = PrepareStep::Finished;
                        fail_report(&mut self.report, "wda_service", why.as_str(), !prebuilt);
                    }
                },
            }
        }
    }
}

fn set_detail(report: &mut IosWdaSetupReport, key: &str, detail: &str)
    ensures
        final(report)@ == (IosWdaSetupReport {
            checks: ({
                let i = place_of(old(report)@.checks, key@);
                if 0 <= i < old(report)@.checks.len() {
                    old(report)@.checks.update(
                        i,
                        IosWdaCheck { detail: detail@, ..old(report)@.checks[i] },
                    )
                } else {
                    old(report)@.checks
                }
            }),
            ..old(report)@
        }),
{
    let ghost all = items(report.checks@);
    let ghost f = has_key(key@);
    let n: usize = report.checks.len();
    let mut i: usize = 0;
    while i < n
        invariant
            i <= n,
            n == report.checks@.len(),
            report@ == old(report)@,
            all == items(report.checks@),
            f == has_key(key@),
            forall|j: int| 0 <= j < i ==> !f(#[trigger] all[j]),
        decreases n - i,
    {
        assert(all[i as int] == report.checks@[i as int]@);
        if text::same(report.checks[i].key.as_str(), key) {
            proof {
                seqs::lemma_first_from_is(all, f, 0, i as int);
            }
            let c = IosWdaCheck {
                key: text::own(report.checks[i].key.as_str()),
                title: text::own(report.checks[i].title.as_str()),
                status: text::own(report.checks[i].status.as_str()),
                detail: text::own(detail),
            };
            report.checks.set(i, c);
            assert(items(report.checks@) =~= all.update(i as int, c@));
            return;
        }
        i = i + 1;
    }
    proof {
        seqs::lemma_first_from_is(all, f, 0, i as int);
    }
}

/// A preparation that is finished stays as it is.
pub proof fn finished_preparations_stay(
    p: WdaPreparation<ReportText>,
    failure: Option<Seq<char>>,
    answers: bool,
    ended: Option<bool>,
    time_is_up: bool,
    log: Seq<char>,
)
    requires
        p.step is Finished,
    ensures
        p.after_xcode(failure) == p,
        p.after_iproxy(failure) == p,
        p.after_download(failure) == p,
        p.after_probe(answers) == p,
        p.after_install(failure) == p,
        p.after_runner(failure) == p,
        p.after_launch(failure) == p,
        p.after_wait(answers, ended, time_is_up, log) == p,
{
}

/// Whether the report of a preparation says one thing: the server is ready where the stage says
/// so and where its item is `ok`; a server that is ready or has failed ends the preparation, and
/// while it is waited for, the stage is `preparing`.
pub open spec fn consistent(p: WdaPreparation<ReportText>) -> bool {
    let i = place_of(p.report.checks, "wda_service"@);
    &&& p.report.ready == (p.report.stage == "ready"@)
    &&& p.report.ready ==> p.step is Finished
    &&& p.report.stage == "failed"@ ==> p.step is Finished
    &&& (p.report.stage == "preparing"@) == (p.step is Wait)
    &&& p.flow is Unsupported ==> p.step is Finished && !p.report.ready
    &&& !(p.flow is Unsupported) ==> 0 <= i < p.report.checks.len() && p.report.ready == (
    p.report.checks[i].status == "ok"@)
}

proof fn lemma_names_differ()
    ensures
        "ready"@ != "needs_action"@,
        "ready"@ != "unsupported"@,
        "ready"@ != "failed"@,
        "ready"@ != "preparing"@,
        "failed"@ != "needs_action"@,
        "failed"@ != "unsupported"@,
        "failed"@ != "preparing"@,
        "preparing"@ != "needs_action"@,
        "preparing"@ != "unsupported"@,
        "ok"@ != "pending"@,
        "ok"@ != "failed"@,
        "ok"@ != "action_required"@,
        "wda_service"@ != "platform"@,
        "wda_service"@ != "xcode"@,
        "wda_service"@ != "device"@,
        "wda_service"@ != "iproxy"@,
        "wda_service"@ != "wda_source"@,
        "wda_service"@ != "wda_artifact"@,
        "wda_service"@ != "wda_bundle_id"@,
        "wda_service"@ != "ideviceinstaller"@,
        "wda_service"@ != "go_ios"@,
{
    reveal_strlit("ready");
    reveal_strlit("needs_action");
    reveal_strlit("unsupported");
    reveal_strlit("failed");
    reveal_strlit("preparing");
    reveal_strlit("ok");
    reveal_strlit("pending");
    reveal_strlit("action_required");
    reveal_strlit("wda_service");
    reveal_strlit("platform");
    reveal_strlit("xcode");
    reveal_strlit("device");
    reveal_strlit("iproxy");
    reveal_strlit("wda_source");
    reveal_strlit("wda_artifact");
    reveal_strlit("wda_bundle_id");
    reveal_strlit("ideviceinstaller");
    reveal_strlit("go_ios");
    assert("ready"@.len() == 5 && "needs_action"@.len() == 12 && "unsupported"@.len() == 11);
    assert("failed"@.len() == 6 && "preparing"@.len() == 9);
    assert("ok"@.len() == 2 && "pending"@.len() == 7 && "action_required"@.len() == 15);
    assert("wda_service"@.len() == 11 && "platform"@.len() == 8 && "xcode"@.len() == 5);
    assert("device"@.len() == 6 && "iproxy"@.len() == 6 && "wda_source"@.len() == 10);
    assert("wda_artifact"@.len() == 12 && "wda_bundle_id"@.len() == 13);
    assert("ideviceinstaller"@.len() == 16 && "go_ios"@.len() == 6);
}

proof fn lemma_place_is(checks: Seq<IosWdaCheck<Seq<char>>>, key: Seq<char>, i: int)
    requires
        0 <= i < checks.len(),
        checks[i].key == key,
        forall|j: int| 0 <= j < i ==> (#[trigger] checks[j]).key != key,
    ensures
        place_of(checks, key) == i,
{
    let f = has_key(key);
    assert forall|j: int| 0 <= j < i implies !f(#[trigger] checks[j]) by {}
    seqs::lemma_first_from_is(checks, f, 0, i);
}

/// A new status of one item leaves the place of every item, and every other item, as it is.
proof fn lemma_place_stays(
    checks: Seq<IosWdaCheck<Seq<char>>>,
    key: Seq<char>,
    status: Seq<char>,
    detail: Seq<char>,
    add: bool,
    other: Seq<char>,
)
    requires
        0 <= place_of(checks, other) < checks.len(),
    ensures
        ({
            let i = place_of(checks, other);
            let n = updated(checks, key, status, detail, add);
            &&& place_of(n, other) == i
            &&& n.len() >= checks.len()
            &&& n[i].status == (if key == other {
                status
            } else {
                checks[i].status
            })
        }),
{
    let i = place_of(checks, other);
    let n = updated(checks, key, status, detail, add);
    let f = has_key(other);
    seqs::lemma_first_from(checks, f, 0);
    seqs::lemma_first_from(checks, has_key(key), 0);
    assert forall|j: int| 0 <= j < i implies (#[trigger] n[j]).key != other by {
        assert(!f(checks[j]));
    }
    assert(n[i].key == checks[i].key);
    assert(f(checks[i]));
    let k = place_of(checks, key);
    if 0 <= k < checks.len() {
        assert(has_key(key)(checks[k]));
    }
    lemma_place_is(n, other, i);
}

/// A preparation begins with a report that says one thing.
pub proof fn preparations_begin_consistent(
    flow: WdaFlow,
    f: SetupFacts,
    probe: Result<(), AdapterError<Seq<char>>>,
)
    ensures
        consistent(first_step(flow, f, probe)),
{
    lemma_names_differ();
    let key = "wda_service"@;
    let p = first_step(flow, f, probe);
    match flow {
        WdaFlow::Unsupported => {},
        WdaFlow::Prebuilt => {
            lemma_place_is(base_text(f).checks, key, 6);
        },
        WdaFlow::MacSource => {
            let m = mac_text(f, probe);
            lemma_place_is(m.checks, key, 5);
            lemma_place_stays(
                m.checks,
                "device"@,
                "action_required"@,
                p.report.detail,
                true,
                key,
            );
        },
        WdaFlow::Windows => {
            lemma_place_is(windows_text(f, probe is Ok).checks, key, 4);
        },
    }
}

/// Every step of a preparation keeps its report consistent, and the server becomes ready only
/// where it answered.
pub proof fn preparations_stay_consistent(
    p: WdaPreparation<ReportText>,
    failure: Option<Seq<char>>,
    answers: bool,
    ended: Option<bool>,
    time_is_up: bool,
    log: Seq<char>,
)
    requires
        consistent(p),
    ensures
        consistent(p.after_xcode(failure)),
        consistent(p.after_iproxy(failure)),
        consistent(p.after_download(failure)),
        consistent(p.after_probe(answers)),
        consistent(p.after_install(failure)),
        consistent(p.after_runner(failure)),
        consistent(p.after_launch(failure)),
        consistent(p.after_wait(answers, ended, time_is_up, log)),
        p.after_xcode(failure).report.ready == p.report.ready,
        p.after_iproxy(failure).report.ready == p.report.ready,
        p.after_download(failure).report.ready == p.report.ready,
        p.after_probe(answers).report.ready == (p.report.ready || p.step is Probe && answers),
        p.after_install(failure).report.ready == p.report.ready,
        p.after_runner(failure).report.ready == p.report.ready,
        p.after_launch(failure).report.ready == p.report.ready,
        p.after_wait(answers, ended, time_is_up, log).report.ready == (p.report.ready || p.step
            is Wait && answers),
{
    lemma_names_differ();
    let key = "wda_service"@;
    let checks = p.report.checks;
    if !(p.flow is Unsupported) {
        assert forall|k: Seq<char>, status: Seq<char>, detail: Seq<char>, add: bool| ({
            let i = place_of(checks, key);
            let n = #[trigger] updated(checks, k, status, detail, add);
            &&& place_of(n, key) == i
            &&& n.len() >= checks.len()
            &&& n[i].status == (if k == key {
                status
            } else {
                checks[i].status
            })
        }) by {
            lemma_place_stays(checks, k, status, detail, add, key);
        }
        let r = p.after_runner(None);
        let i = place_of(checks, key);
        if p.step is StartRunner {
            seqs::lemma_first_from(checks, has_key(key), 0);
            assert forall|j: int| 0 <= j < i implies (#[trigger] r.report.checks[j]).key
                != key by {
                assert(!has_key(key)(checks[j]));
            }
            assert(has_key(key)(checks[i]));
            lemma_place_is(r.report.checks, key, i);
        }
    }
}

/// Whether a preparation is at a step that its flow has: a shipped server is installed and
/// started, one that is built from source is built with Xcode, both are asked and waited for,
/// and the other flows only report.
pub open spec fn step_fits_flow(p: WdaPreparation<ReportText>) -> bool {
    match p.step {
        PrepareStep::Finished => true,
        PrepareStep::Install | PrepareStep::StartRunner => p.flow is Prebuilt,
        PrepareStep::CheckXcode
        | PrepareStep::EnsureIproxy
        | PrepareStep::Download
        | PrepareStep::Launch => p.flow is MacSource,
        PrepareStep::Probe | PrepareStep::Wait => p.flow is Prebuilt || p.flow is MacSource,
    }
}

/// A preparation begins at a step of its flow: a shipped server is asked for first where the
/// phone and both tools are there, one from source begins with Xcode where the phone is there and
/// the server does not answer yet, and everything else is only reported.
pub proof fn preparations_begin_in_their_flow(
    flow: WdaFlow,
    f: SetupFacts,
    probe: Result<(), AdapterError<Seq<char>>>,
)
    ensures
        step_fits_flow(first_step(flow, f, probe)),
        first_step(flow, f, probe).flow == flow,
        first_step(flow, f, probe).project == f.project,
        flow is Unsupported || flow is Windows ==> first_step(flow, f, probe).step is Finished,
        flow is Prebuilt ==> (first_step(flow, f, probe).step is Probe <==> connected(f)
            && f.installer && f.runner),
        flow is Prebuilt && !(first_step(flow, f, probe).step is Probe) ==> first_step(
            flow,
            f,
            probe,
        ).step is Finished,
        flow is MacSource ==> (first_step(flow, f, probe).step is CheckXcode <==> connected(f)
            && probe is Err),
        flow is MacSource && !(first_step(flow, f, probe).step is CheckXcode) ==> first_step(
            flow,
            f,
            probe,
        ).step is Finished,
{
}

/// Every step of a preparation leads to a step of its flow, and the flow stays.
pub proof fn preparations_stay_in_their_flow(
    p: WdaPreparation<ReportText>,
    failure: Option<Seq<char>>,
    answers: bool,
    ended: Option<bool>,
    time_is_up: bool,
    log: Seq<char>,
)
    requires
        step_fits_flow(p),
    ensures
        step_fits_flow(p.after_xcode(failure)) && p.after_xcode(failure).flow == p.flow,
        step_fits_flow(p.after_iproxy(failure)) && p.after_iproxy(failure).flow == p.flow,
        step_fits_flow(p.after_download(failure)) && p.after_download(failure).flow == p.flow,
        step_fits_flow(p.after_probe(answers)) && p.after_probe(answers).flow == p.flow,
        step_fits_flow(p.after_install(failure)) && p.after_install(failure).flow == p.flow,
        step_fits_flow(p.after_runner(failure)) && p.after_runner(failure).flow == p.flow,
        step_fits_flow(p.after_launch(failure)) && p.after_launch(failure).flow == p.flow,
        step_fits_flow(p.after_wait(answers, ended, time_is_up, log)) && p.after_wait(
            answers,
            ended,
            time_is_up,
            log,
        ).flow == p.flow,
{
}

/// How a preparation from source goes on while nothing fails: Xcode, the tunnel tool, the source
/// where it is not there, the question whether the server answers, the build, and the wait.
pub proof fn a_build_goes_from_xcode_to_the_wait(p: WdaPreparation<ReportText>)
    requires
        p.flow is MacSource,
    ensures
        p.step is CheckXcode ==> p.after_xcode(None).step is EnsureIproxy,
        p.step is EnsureIproxy && !p.project ==> p.after_iproxy(None).step is Download,
        p.step is EnsureIproxy && p.project ==> p.after_iproxy(None).step is Probe,
        p.step is Download ==> p.after_download(None).step is Probe && p.after_download(
            None,
        ).project,
        p.step is Probe ==> p.after_probe(false).step is Launch,
        p.step is Probe ==> p.after_probe(true).step is Finished,
        p.step is Launch ==> p.after_launch(None).step is Wait,
{
}

/// How a shipped server is prepared while nothing fails: the question whether it answers, its
/// installation, its start, and the wait.
pub proof fn an_installation_goes_from_the_probe_to_the_wait(p: WdaPreparation<ReportText>)
    requires
        p.flow is Prebuilt,
    ensures
        p.step is Probe ==> p.after_probe(false).step is Install,
        p.step is Probe ==> p.after_probe(true).step is Finished,
        p.step is Install ==> p.after_install(None).step is StartRunner,
        p.step is StartRunner ==> p.after_runner(None).step is Wait,
{
}

/// A step that fails ends the preparation; its report is not ready and says why.
pub proof fn failing_steps_end_the_preparation(
    p: WdaPreparation<ReportText>,
    why: Seq<char>,
)
    requires
        !p.report.ready,
    ensures
        ({
            let ends = |q: WdaPreparation<ReportText>|
                q.step is Finished && !q.report.ready && q.report.detail == why;
            &&& p.step is CheckXcode ==> ends(p.after_xcode(Some(why)))
            &&& p.step is EnsureIproxy ==> ends(p.after_iproxy(Some(why)))
            &&& p.step is Download ==> ends(p.after_download(Some(why)))
            &&& p.step is Install ==> ends(p.after_install(Some(why)))
            &&& p.step is StartRunner ==> ends(p.after_runner(Some(why)))
            &&& p.step is Launch ==> ends(p.after_launch(Some(why)))
        }),
{
}

/// A wait ends when the server answers, when what was started ended, or when the time is up, and
/// goes on otherwise. That the server answers counts before everything else.
pub proof fn waits_end_for_a_reason(
    p: WdaPreparation<ReportText>,
    answers: bool,
    ended: Option<bool>,
    time_is_up: bool,
    log: Seq<char>,
)
    requires
        p.step is Wait,
        !p.report.ready,
    ensures
        p.after_wait(answers, ended, time_is_up, log).step is Finished <==> answers || ended
            is Some || time_is_up,
        p.after_wait(answers, ended, time_is_up, log).report.ready <==> answers,
        !answers && ended is None && !time_is_up ==> p.after_wait(answers, ended, time_is_up, log)
            == p,
        !answers && (ended is Some || time_is_up) ==> p.after_wait(
            answers,
            ended,
            time_is_up,
            log,
        ).report.stage == "failed"@,
{
}

/// A server that ships with the application is used wherever it can be, and one is built only
/// on a Mac.
pub proof fn flows_follow_the_platform(platform: HostPlatform, shipped: bool)
    ensures
        flow_on(platform, shipped) is MacSource <==> platform is MacOs && !shipped,
        flow_on(platform, shipped) is Windows <==> platform is Windows && !shipped,
        flow_on(platform, shipped) is Prebuilt ==> shipped,
        shipped && (platform is MacOs || platform is Windows) ==> flow_on(platform, shipped)
            is Prebuilt,
        platform is Other <==> flow_on(platform, shipped) is Unsupported,
{
}

/// The phone is changed only after the server was asked for its status and did not answer.
pub proof fn nothing_is_installed_over_a_server_that_answers(
    p: WdaPreparation<ReportText>,
    failure: Option<Seq<char>>,
    answers: bool,
    ended: Option<bool>,
    time_is_up: bool,
    log: Seq<char>,
)
    requires
        !(p.step is Install),
        !(p.step is Launch),
    ensures
        p.after_probe(answers).step is Install ==> !answers,
        p.after_probe(answers).step is Launch ==> !answers,
        !(p.after_xcode(failure).step is Install) && !(p.after_xcode(failure).step is Launch),
        !(p.after_iproxy(failure).step is Install) && !(p.after_iproxy(failure).step is Launch),
        !(p.after_download(failure).step is Install) && !(p.after_download(failure).step is Launch),
        !(p.after_runner(failure).step is Install) && !(p.after_runner(failure).step is Launch),
        !(p.after_wait(answers, ended, time_is_up, log).step is Install) && !(p.after_wait(
            answers,
            ended,
            time_is_up,
            log,
        ).step is Launch),
{
}

// ---------------------------------------------------------------------------
// The tunnel tool
// ---------------------------------------------------------------------------

/// How the tunnel tool is come by.
#[derive(Debug, Clone, Copy, PartialEq, Eq, Structural)]
pub enum IproxyPlan {
    /// It is there.
    Present,
    /// The package manager installs it.
    Install,
    /// It cannot be come by.
    Impossible,
}

/// How the tunnel tool is come by.
pub open spec fn iproxy_plan(found: bool, brew: bool) -> IproxyPlan {
    if found {
        IproxyPlan::Present
    } else if brew {
        IproxyPlan::Install
    } else {
        IproxyPlan::Impossible
    }
}

/// How the tunnel tool is come by.
pub fn ensure_iproxy(found: bool, brew: bool) -> (r: IproxyPlan)
    ensures
        r == iproxy_plan(found, brew),
{
    if found {
        IproxyPlan::Present
    } else if brew {
        IproxyPlan::Install
    } else {
        IproxyPlan::Impossible
    }
}

/// What is said where the tunnel tool cannot be come by.
pub fn iproxy_impossible() -> (r: String)
    ensures
        r@
            == "系统没有找到 iproxy，也没有检测到 Homebrew；应用不能在没有用户确认的情况下替系统安装 Homebrew。请安装 Homebrew 后再次点击“一键准备 WDA”"@,
{
    text::own(
        "系统没有找到 iproxy，也没有检测到 Homebrew；应用不能在没有用户确认的情况下替系统安装 Homebrew。请安装 Homebrew 后再次点击“一键准备 WDA”",
    )
}

/// Why the tunnel tool is not there after the package manager ran.
pub open spec fn brew_failure(run: Result<ToolRun<Seq<char>>, Seq<char>>, found: bool) -> Option<
    Seq<char>,
> {
    match run {
        Err(why) => Some("调用 Homebrew 安装 iproxy 失败："@ + why),
        Ok(run) => if !run.success {
            Some(wda_source::output_failure("brew install libusbmuxd"@, run))
        } else if found {
            None
        } else {
            Some("Homebrew 安装完成，但应用仍未找到 iproxy；请重启快投屏后重试"@)
        },
    }
}

/// Why the tunnel tool is not there after the package manager ran; `found` where it is there.
pub fn brew_ran(run: Result<ToolRun, String>, found: bool) -> (r: Option<String>)
    ensures
        text::opt_text(r) == brew_failure(wda_source::run_view(run), found),
{
    match run {
        Err(why) => Some(text::cat2("调用 Homebrew 安装 iproxy 失败：", why.as_str())),
        Ok(run) => if !run.success {
            Some(wda_source::format_output_error("brew install libusbmuxd", &run))
        } else if found {
            None
        } else {
            Some(
                text::own("Homebrew 安装完成，但应用仍未找到 iproxy；请重启快投屏后重试"),
            )
        },
    }
}

// ---------------------------------------------------------------------------
// The runners
// ---------------------------------------------------------------------------

/// Notes a runner that serves a phone at a port.
pub fn runner_registered(
    runners: &mut WdaEndpoints,
    ports: &mut WdaEndpoints,
    raw_udid: &str,
    host_port: u16,
)
    ensures
        final(runners)@ == old(runners)@.insert(raw_udid@, host_port),
        final(ports)@ == old(ports)@.insert(raw_udid@, host_port),
{
    runners.register_wda_endpoint(raw_udid, host_port);
    ports.register_wda_endpoint(raw_udid, host_port);
}

/// Forgets a runner that has ended.
pub fn runner_ended(runners: &mut WdaEndpoints, ports: &mut WdaEndpoints, raw_udid: &str)
    ensures
        final(runners)@ == old(runners)@.remove(raw_udid@),
        final(ports)@ == old(ports)@.remove(raw_udid@),
{
    runners.unregister_wda_endpoint(raw_udid);
    ports.unregister_wda_endpoint(raw_udid);
}

/// Forgets all runners and the ports at which they served; the phones whose runners are to be
/// stopped are returned.
pub fn stop_all(runners: &mut WdaEndpoints, ports: &mut WdaEndpoints) -> (r: Vec<String>)
    ensures
        final(runners)@ == Map::<Seq<char>, u16>::empty(),
        final(ports)@ == old(ports)@.remove_keys(old(runners)@.dom()),
        forall|k: Seq<char>| old(runners)@.contains_key(k) == text::texts(r@).contains(k),
{
    let phones = runners.phones();
    ports.forget_all_of(runners);
    *runners = WdaEndpoints::new();
    phones
}

// ---------------------------------------------------------------------------
// Laws of the inspection
// ---------------------------------------------------------------------------

/// The phone that is chosen is an iPhone, the one that is asked for where one is, and the first
/// such one; none is chosen exactly where there is none.
pub proof fn the_phone_that_is_asked_for_is_chosen(
    all: Seq<UsbDevice<Seq<char>>>,
    requested: Option<Seq<char>>,
)
    ensures
        ({
            let i = seqs::first_from(all, wanted(requested), 0);
            &&& 0 <= i <= all.len()
            &&& i < all.len() ==> all[i].kind is Iphone && (requested matches Some(id)
                ==> all[i].id_masked == id)
            &&& forall|j: int|
                0 <= j < i ==> (#[trigger] all[j]).kind is Android || (requested is Some
                    && all[j].id_masked != requested->Some_0)
        }),
{
    seqs::lemma_first_from(all, wanted(requested), 0);
}

/// A server is asked only where it can be reached: on the phone that is connected, over the
/// tools that its flow needs, or, where an address was given, at that address. Otherwise the
/// connection over USB is reported as not available.
pub proof fn servers_are_asked_where_they_can_be_reached(flow: WdaFlow, f: SetupFacts)
    ensures
        planned_probe(flow, f) is Ask <==> (match flow {
            WdaFlow::MacSource => f.xcode is Ok && f.iproxy && (f.url_configured || connected(f)),
            WdaFlow::Windows => f.iproxy && connected(f),
            _ => connected(f),
        }),
        planned_probe(flow, f) matches ProbePlan::Ask { raw_udid } ==> (if flow is MacSource
            && f.url_configured {
            raw_udid == ""@
        } else {
            f.device is Ok && raw_udid == (f.device->Ok_0)@.raw_id
        }),
        planned_probe(flow, f) matches ProbePlan::Skip(e) ==> e is IosUsbUnavailable,
{
}

/// A new status of an item is shown there and changes no other item; an item that is not there
/// is added behind the others, where it is to be.
pub proof fn items_are_updated_by_their_key(
    checks: Seq<IosWdaCheck<Seq<char>>>,
    key: Seq<char>,
    status: Seq<char>,
    detail: Seq<char>,
    add: bool,
)
    ensures
        ({
            let n = updated(checks, key, status, detail, add);
            let there = exists|i: int| 0 <= i < checks.len() && (#[trigger] checks[i]).key == key;
            &&& n.len() == checks.len() + (if add && !there {
                1int
            } else {
                0int
            })
            &&& forall|i: int|
                0 <= i < checks.len() ==> (#[trigger] n[i]).key == checks[i].key && n[i].title
                    == checks[i].title
            &&& forall|i: int|
                0 <= i < checks.len() && checks[i].key != key ==> #[trigger] n[i] == checks[i]
            &&& there || add ==> exists|i: int|
                0 <= i < n.len() && (#[trigger] n[i]).key == key && n[i].status == status
                    && n[i].detail == detail
        }),
{
    let n = updated(checks, key, status, detail, add);
    let k = place_of(checks, key);
    seqs::lemma_first_from(checks, has_key(key), 0);
    if k < checks.len() {
        assert(has_key(key)(checks[k]));
        assert(checks[k].key == key);
        assert(n[k].key == key && n[k].status == status && n[k].detail == detail);
    } else {
        assert forall|i: int| 0 <= i < checks.len() implies (#[trigger] checks[i]).key != key by {
            assert(!has_key(key)(checks[i]));
        }
        if add {
            assert(n[checks.len() as int].key == key);
        }
    }
}

/// Whether each item with a key is `ok` exactly where something is so.
pub open spec fn ok_where(checks: Seq<IosWdaCheck<Seq<char>>>, key: Seq<char>, so: bool) -> bool {
    &&& exists|i: int| 0 <= i < checks.len() && (#[trigger] checks[i]).key == key
    &&& forall|i: int|
        0 <= i < checks.len() && (#[trigger] checks[i]).key == key ==> (checks[i].status == "ok"@
            <==> so)
}

/// An item of a report is `ok` exactly where what it speaks of was found.
pub proof fn items_are_ok_where_their_thing_is_there(
    f: SetupFacts,
    probe: Result<(), AdapterError<Seq<char>>>,
)
    ensures
        ok_where(mac_text(f, probe).checks, "xcode"@, f.xcode is Ok),
        ok_where(mac_text(f, probe).checks, "device"@, connected(f)),
        ok_where(mac_text(f, probe).checks, "iproxy"@, f.iproxy),
        ok_where(mac_text(f, probe).checks, "wda_source"@, f.project),
        ok_where(mac_text(f, probe).checks, "wda_service"@, probe is Ok),
        ok_where(windows_text(f, probe is Ok).checks, "device"@, connected(f)),
        ok_where(windows_text(f, probe is Ok).checks, "iproxy"@, f.iproxy),
        ok_where(windows_text(f, probe is Ok).checks, "wda_source"@, false),
        ok_where(windows_text(f, probe is Ok).checks, "wda_service"@, probe is Ok),
        ok_where(base_text(f).checks, "ideviceinstaller"@, f.installer),
        ok_where(base_text(f).checks, "go_ios"@, f.runner),
        ok_where(base_text(f).checks, "device"@, connected(f)),
        ok_where(base_text(f).checks, "wda_service"@, false),
{
    lemma_names_differ();
    lemma_keys_differ();
    let m = mac_text(f, probe).checks;
    let w = windows_text(f, probe is Ok).checks;
    let b = base_text(f).checks;
    assert(m.len() == 6 && w.len() == 5 && b.len() == 7);
    assert(m[0].key == "platform"@ && m[1].key == "xcode"@ && m[2].key == "device"@ && m[3].key
        == "iproxy"@ && m[4].key == "wda_source"@ && m[5].key == "wda_service"@);
    assert(w[0].key == "platform"@ && w[1].key == "device"@ && w[2].key == "iproxy"@ && w[3].key
        == "wda_source"@ && w[4].key == "wda_service"@);
    assert(b[0].key == "platform"@ && b[1].key == "wda_artifact"@ && b[2].key == "wda_bundle_id"@
        && b[3].key == "ideviceinstaller"@ && b[4].key == "go_ios"@ && b[5].key == "device"@
        && b[6].key == "wda_service"@);
}

proof fn lemma_keys_differ()
    ensures
        "xcode"@ != "platform"@,
        "xcode"@ != "device"@,
        "xcode"@ != "iproxy"@,
        "xcode"@ != "wda_source"@,
        "device"@ != "platform"@,
        "device"@ != "iproxy"@,
        "device"@ != "wda_source"@,
        "device"@ != "wda_artifact"@,
        "device"@ != "wda_bundle_id"@,
        "device"@ != "ideviceinstaller"@,
        "device"@ != "go_ios"@,
        "iproxy"@ != "platform"@,
        "iproxy"@ != "wda_source"@,
        "wda_source"@ != "platform"@,
        "go_ios"@ != "platform"@,
        "go_ios"@ != "wda_artifact"@,
        "go_ios"@ != "wda_bundle_id"@,
        "go_ios"@ != "ideviceinstaller"@,
        "ideviceinstaller"@ != "platform"@,
        "ideviceinstaller"@ != "wda_artifact"@,
        "ideviceinstaller"@ != "wda_bundle_id"@,
{
    reveal_strlit("platform");
    reveal_strlit("xcode");
    reveal_strlit("device");
    reveal_strlit("iproxy");
    reveal_strlit("wda_source");
    reveal_strlit("wda_artifact");
    reveal_strlit("wda_bundle_id");
    reveal_strlit("ideviceinstaller");
    reveal_strlit("go_ios");
    assert("platform"@.len() == 8 && "xcode"@.len() == 5 && "wda_source"@.len() == 10);
    assert("wda_artifact"@.len() == 12 && "wda_bundle_id"@.len() == 13);
    assert("ideviceinstaller"@.len() == 16);
    assert("device"@[0] == 'd' && "iproxy"@[0] == 'i' && "go_ios"@[0] == 'g');
    assert("device"@.len() == 6 && "iproxy"@.len() == 6 && "go_ios"@.len() == 6);
}

/// A step that fails marks its own item as failed, with the reason.
pub proof fn failures_are_shown_at_their_item(
    report: ReportText,
    key: Seq<char>,
    why: Seq<char>,
)
    ensures
        ({
            let n = failing(report, key, why, true);
            &&& n.stage == "failed"@ && n.detail == why && n.ready == report.ready
            &&& exists|i: int|
                0 <= i < n.checks.len() && (#[trigger] n.checks[i]).key == key
                    && n.checks[i].status == "failed"@ && n.checks[i].detail == why
        }),
{
    items_are_updated_by_their_key(report.checks, key, "failed"@, why, true);
    let n = updated(report.checks, key, "failed"@, why, true);
    let i = choose|i: int|
        0 <= i < n.len() && (#[trigger] n[i]).key == key && n[i].status == "failed"@ && n[i].detail
            == why;
    assert(failing(report, key, why, true).checks[i].key == key);
}

/// A tunnel tool that is there is used, one that is not is installed where that is possible, and
/// the installation succeeded only where the tool is there afterwards.
pub proof fn tunnel_tools_are_installed_where_they_are_missing(
    found: bool,
    brew: bool,
    run: Result<ToolRun<Seq<char>>, Seq<char>>,
)
    ensures
        iproxy_plan(found, brew) is Present <==> found,
        iproxy_plan(found, brew) is Install <==> !found && brew,
        iproxy_plan(found, brew) is Impossible <==> !found && !brew,
        brew_failure(run, found) is None <==> found && (run matches Ok(r) && r.success),
{
}

} // verus!
