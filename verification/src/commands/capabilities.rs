//! What this computer can do, as it is asked for before a session starts.
use vstd::prelude::*;

use crate::commands::CmdResult;
use crate::integrations;
use crate::integrations::diagnostics;
use crate::integrations::diagnostics::{
    mask_ipv4,
    meets_windows_minimum,
    probe_mdns,
    AndroidProbes,
    DependencyState,
    MdnsOutcome,
    MIN_WINDOWS_BUILD,
};
use crate::integrations::{path_below, HostPlatform};
use crate::text;

verus! {

#[derive(Debug)]
pub struct NetworkCapability {
    pub available: bool,
    pub interface_count: usize,
    pub primary_ip_masked: Option<String>,
    pub error: Option<String>,
}

#[derive(Debug)]
pub struct BluetoothCapability {
    pub supported: bool,
    pub peripheral_role: bool,
    pub adapter_name: Option<String>,
    pub adapter_address_masked: Option<String>,
    pub error: Option<String>,
}

#[derive(Debug)]
pub struct MirrorCapability {
    /// `ok` or `missing`.
    pub status: String,
    pub uxplay_present: bool,
    pub uxplay_version: Option<String>,
    pub expected_path: String,
    pub detail: String,
}

#[derive(Debug, Clone, Copy, PartialEq, Eq, Structural)]
pub struct WindowsTargetInfo {
    pub min_build: u32,
    pub current_build: u32,
    pub meets_minimum: bool,
}

#[derive(Debug)]
pub struct AndroidCapability {
    pub adb_available: bool,
    pub ffmpeg_available: bool,
    pub scrcpy_server_available: bool,
    /// The authorized devices, each as its masked serial number and its state.
    pub authorized_devices: Vec<String>,
    pub detail: String,
}

#[derive(Debug)]
pub struct CapabilityReport {
    pub platform: String,
    pub os_version: String,
    pub os_build: Option<u32>,
    pub app_version: String,
    pub tauri_version: String,
    pub network: NetworkCapability,
    pub mdns: DependencyState,
    pub bluetooth: BluetoothCapability,
    pub mirror: MirrorCapability,
    pub android: AndroidCapability,
    pub clipboard: bool,
    pub windows_target: Option<WindowsTargetInfo>,
}

/// What was found of this computer.
pub struct CapabilityProbes {
    pub platform: String,
    pub os_version: String,
    pub os_build: Option<u32>,
    pub app_version: String,
    pub tauri_version: String,
    /// The resource directory of the program.
    pub resources: String,
    pub interface_count: usize,
    pub primary_ip: Option<String>,
    pub mdns: MdnsOutcome,
    /// Whether the Bluetooth adapter can be a peripheral, its masked address, and a note.
    pub ble: (bool, Option<String>, Option<String>),
    /// Whether the receiver is there, its version, and its path or why it is missing.
    pub uxplay: (bool, Option<String>, String),
    pub android: AndroidProbes,
}

/// What is said about the network: it is there where this computer has an address of its own.
pub open spec fn shows_network(r: NetworkCapability, p: CapabilityProbes) -> bool {
    &&& r.available == (p.primary_ip is Some)
    &&& r.interface_count == p.interface_count
    &&& text::opt_text(r.primary_ip_masked) == (match p.primary_ip {
        Some(ip) => Some(diagnostics::masked_ipv4(ip@)),
        None => None,
    })
    &&& text::opt_text(r.error) == (match p.primary_ip {
        Some(_) => None,
        None => Some("未探测到主网络接口"@),
    })
}

/// How paths are written on the platform with a name.
pub open spec fn host_of(platform: Seq<char>) -> HostPlatform {
    if text::lowered(platform) == text::lowered("windows"@) {
        HostPlatform::Windows
    } else {
        HostPlatform::Other
    }
}

/// What is said about the receiver.
pub open spec fn shows_mirror(r: MirrorCapability, p: CapabilityProbes) -> bool {
    &&& r.status@ == (if p.uxplay.0 {
        "ok"@
    } else {
        "missing"@
    })
    &&& r.uxplay_present == p.uxplay.0
    &&& r.uxplay_version == p.uxplay.1
    &&& r.expected_path@ == integrations::below(host_of(p.platform@), p.resources@, "binaries"@)
    &&& r.detail@ == (if p.uxplay.0 {
        "UxPlay 就位（端口 6000）"@
    } else {
        p.uxplay.2@
    })
}

/// What is said about Android phones. Without the debug bridge nothing else counts.
pub open spec fn shows_android(r: AndroidCapability, p: AndroidProbes) -> bool {
    match p.adb_missing {
        Some(why) => {
            &&& !r.adb_available
            &&& !r.ffmpeg_available
            &&& !r.scrcpy_server_available
            &&& text::texts(r.authorized_devices@) == Seq::<Seq<char>>::empty()
            &&& r.detail@ == why@
        },
        None => {
            &&& r.adb_available
            &&& r.ffmpeg_available == (p.ffmpeg is Some)
            &&& r.scrcpy_server_available == (p.scrcpy_server is Some)
            &&& text::texts(r.authorized_devices@) == diagnostics::authorized_lines(p.devices)
            &&& r.detail@ == (if p.scrcpy_server is None {
                "adb 就绪，但未找到匹配的 scrcpy-server"@
            } else if p.ffmpeg is None {
                "adb 就绪，但未找到 ffmpeg（投屏解码依赖）"@
            } else {
                "adb、scrcpy-server 与 ffmpeg 就绪"@
            })
        },
    }
}

/// What is said about Windows, on Windows.
pub open spec fn windows_of(platform: Seq<char>, build: Option<u32>) -> Option<WindowsTargetInfo> {
    if text::lowered(platform) == text::lowered("windows"@) {
        let current = match build {
            Some(b) => b,
            None => 0u32,
        };
        Some(
            WindowsTargetInfo {
                min_build: MIN_WINDOWS_BUILD,
                current_build: current,
                meets_minimum: current >= MIN_WINDOWS_BUILD,
            },
        )
    } else {
        None
    }
}

fn network_capability(primary_ip: &Option<String>, interface_count: usize) -> (r: NetworkCapability)
    ensures
        forall|p: CapabilityProbes|
            p.primary_ip == *primary_ip && p.interface_count == interface_count
                ==> #[trigger] shows_network(r, p),
{
    match primary_ip {
        Some(ip) => NetworkCapability {
            available: true,
            interface_count,
            primary_ip_masked: Some(mask_ipv4(ip.as_str())),
            error: None,
        },
        None => NetworkCapability {
            available: false,
            interface_count,
            primary_ip_masked: None,
            error: Some(text::own("未探测到主网络接口")),
        },
    }
}

fn android_capability(p: &AndroidProbes) -> (r: AndroidCapability)
    ensures
        shows_android(r, *p),
{
    match &p.adb_missing {
        Some(why) => {
            let none: Vec<String> = Vec::new();
            assert(text::texts(none@) =~= Seq::<Seq<char>>::empty());
            AndroidCapability {
                adb_available: false,
                ffmpeg_available: false,
                scrcpy_server_available: false,
                authorized_devices: none,
                detail: text::own(why.as_str()),
            }
        },
        None => {
            let authorized_devices = match &p.devices {
                Ok(v) => diagnostics::device_lines(v, true),
                Err(_) => {
                    let none: Vec<String> = Vec::new();
                    assert(text::texts(none@) =~= Seq::<Seq<char>>::empty());
                    none
                },
            };
            let ffmpeg_available = p.ffmpeg.is_some();
            let scrcpy_server_available = p.scrcpy_server.is_some();
            let detail = if ffmpeg_available && scrcpy_server_available {
                "adb、scrcpy-server 与 ffmpeg 就绪"
            } else if !scrcpy_server_available {
                "adb 就绪，但未找到匹配的 scrcpy-server"
            } else {
                "adb 就绪，但未找到 ffmpeg（投屏解码依赖）"
            };
            AndroidCapability {
                adb_available: true,
                ffmpeg_available,
                scrcpy_server_available,
                authorized_devices,
                detail: text::own(detail),
            }
        },
    }
}

/// Puts together what this computer can do.
pub fn check_capabilities(p: CapabilityProbes) -> (r: CmdResult<CapabilityReport>)
    ensures
        r matches Ok(c) && {
            &&& c.platform == p.platform
            &&& c.os_version == p.os_version
            &&& c.os_build == p.os_build
            &&& c.app_version == p.app_version
            &&& c.tauri_version == p.tauri_version
            &&& shows_network(c.network, p)
            &&& c.mdns@ == diagnostics::mdns_state(p.mdns)
            &&& c.bluetooth == (BluetoothCapability {
                supported: p.ble.0,
                peripheral_role: p.ble.0,
                adapter_name: None,
                adapter_address_masked: p.ble.1,
                error: p.ble.2,
            })
            &&& shows_mirror(c.mirror, p)
            &&& shows_android(c.android, p.android)
            &&& c.clipboard
            &&& c.windows_target == windows_of(p.platform@, p.os_build)
        },
{
    let network = network_capability(&p.primary_ip, p.interface_count);
    let android = android_capability(&p.android);
    let (uxplay_present, uxplay_version, uxplay_detail) = p.uxplay;
    let on_windows = text::same_ignoring_case(p.platform.as_str(), "windows");
    let host = if on_windows {
        HostPlatform::Windows
    } else {
        HostPlatform::Other
    };
    let mirror = MirrorCapability {
        status: text::own(
            if uxplay_present {
                "ok"
            } else {
                "missing"
            },
        ),
        uxplay_present,
        uxplay_version,
        expected_path: path_below(host, p.resources.as_str(), "binaries"),
        detail: if uxplay_present {
            text::own("UxPlay 就位（端口 6000）")
        } else {
            uxplay_detail
        },
    };
    let windows_target = if on_windows {
        let current_build: u32 = match p.os_build {
            Some(b) => b,
            None => 0,
        };
        Some(
            WindowsTargetInfo {
                min_build: MIN_WINDOWS_BUILD,
                current_build,
                meets_minimum: meets_windows_minimum(Some(current_build)),
            },
        )
    } else {
        None
    };
    let (role, address, note) = p.ble;
    Ok(
        CapabilityReport {
            platform: p.platform,
            os_version: p.os_version,
            os_build: p.os_build,
            app_version: p.app_version,
            tauri_version: p.tauri_version,
            network,
            mdns: probe_mdns(p.mdns),
            bluetooth: BluetoothCapability {
                supported: role,
                peripheral_role: role,
                adapter_name: None,
                adapter_address_masked: address,
                error: note,
            },
            mirror,
            android,
            clipboard: true,
            windows_target,
        },
    )
}

/// Only Windows, in whatever case its name is written, is judged by its build: one that is old
/// or not known is too old.
pub proof fn builds_are_judged_on_windows(platform: Seq<char>, build: Option<u32>)
    ensures
        windows_of(platform, build) is Some <==> text::lowered(platform) == text::lowered("windows"@),
        windows_of(platform, build) is Some <==> host_of(platform) is Windows,
        windows_of(platform, build) matches Some(w) ==> {
            &&& w.meets_minimum <==> diagnostics::recent_enough(build)
            &&& w.meets_minimum <==> w.current_build >= w.min_build
            &&& build matches Some(b) ==> w.current_build == b
            &&& build is None ==> w.current_build == 0
        },
{
}

/// Android phones can be shown where everything for it was found, and only then; each thing is
/// reported by itself, and without the debug bridge nothing else counts.
pub proof fn what_is_missing_is_reported(r: AndroidCapability, p: AndroidProbes)
    requires
        shows_android(r, p),
    ensures
        r.adb_available <==> p.adb_missing is None,
        r.ffmpeg_available <==> p.adb_missing is None && p.ffmpeg is Some,
        r.scrcpy_server_available <==> p.adb_missing is None && p.scrcpy_server is Some,
        p.adb_missing matches Some(why) ==> r.detail@ == why@ && r.authorized_devices@.len() == 0,
        r.adb_available && r.ffmpeg_available && r.scrcpy_server_available ==> r.detail@
            == "adb、scrcpy-server 与 ffmpeg 就绪"@,
        r.adb_available && !r.scrcpy_server_available ==> r.detail@
            == "adb 就绪，但未找到匹配的 scrcpy-server"@,
        r.adb_available && r.scrcpy_server_available && !r.ffmpeg_available ==> r.detail@
            == "adb 就绪，但未找到 ffmpeg（投屏解码依赖）"@,
{
    assert(text::texts(r.authorized_devices@).len() == r.authorized_devices@.len());
}

/// The receiver is there or missing, and why it is missing is passed on; the network is there
/// where this computer has an address, of which only the mask is shown.
pub proof fn receivers_and_networks_are_reported(
    r: MirrorCapability,
    n: NetworkCapability,
    p: CapabilityProbes,
)
    requires
        shows_mirror(r, p),
        shows_network(n, p),
    ensures
        r.status@ == "ok"@ <==> p.uxplay.0,
        r.status@ == "missing"@ <==> !p.uxplay.0,
        r.uxplay_present == p.uxplay.0,
        !p.uxplay.0 ==> r.detail@ == p.uxplay.2@,
        n.available <==> p.primary_ip is Some,
        n.available <==> n.error is None,
        n.primary_ip_masked is Some <==> n.available,
        p.primary_ip matches Some(ip) ==> n.primary_ip_masked->Some_0@ == diagnostics::masked_ipv4(
            ip@,
        ),
{
    reveal_strlit("ok");
    reveal_strlit("missing");
    assert("ok"@.len() != "missing"@.len());
}


} // verus!
