//! The Bluetooth input link on macOS: the name it advertises, what its status codes mean, and
//! how a status report changes the state of the link.
use vstd::prelude::*;

use crate::integrations::hid_adapter;
use crate::integrations::hid_adapter::{authorization_name, HidStatus};
use crate::integrations::AdapterError;
use crate::session::state::ControlState;
use crate::text;

verus! {

/// The longest start of a name that fits into an advertising packet beside the service
/// identifier, which leaves eight bytes; `KTP` where not even one character fits.
pub open spec fn advertised(name: Seq<char>) -> Seq<char> {
    let cut = text::first_bytes(name, 8);
    if cut.len() == 0 {
        "KTP"@
    } else {
        cut
    }
}

/// The name that is advertised: cut to eight bytes at a character boundary.
pub fn compact_advertised_name(name: &str) -> (r: String)
    ensures
        r@ == advertised(name@),
{
    let cut = text::take_first_bytes(name, 8);
    if cut.as_str().is_empty() {
        text::own("KTP")
    } else {
        cut
    }
}

/// An advertised name takes between one and eight bytes.
pub proof fn advertised_name_fits(name: Seq<char>)
    ensures
        1 <= text::byte_length(advertised(name)) <= 8,
{
    text::lemma_cuts_within(name, 8);
    text::lemma_byte_length_at_least(advertised(name));
    if text::first_bytes(name, 8).len() == 0 {
        reveal_strlit("KTP");
        reveal_with_fuel(text::byte_length, 4);
    }
}

/// The name of a state of the Bluetooth controller.
pub open spec fn manager_state_text(code: i32) -> Seq<char> {
    if code == 0 {
        "Unknown"@
    } else if code == 1 {
        "Resetting"@
    } else if code == 2 {
        "Unsupported"@
    } else if code == 3 {
        "Unauthorized"@
    } else if code == 4 {
        "PoweredOff"@
    } else if code == 5 {
        "PoweredOn"@
    } else {
        "未知"@
    }
}

/// The name of a state of the Bluetooth controller.
pub fn manager_state_name(code: i32) -> (r: &'static str)
    ensures
        r@ == manager_state_text(code),
{
    match code {
        0 => "Unknown",
        1 => "Resetting",
        2 => "Unsupported",
        3 => "Unauthorized",
        4 => "PoweredOff",
        5 => "PoweredOn",
        _ => "未知",
    }
}

/// What is wrong with the state of the controller; nothing where it is on.
pub open spec fn state_problem(manager_state: i32, authorization: i32) -> Option<Seq<char>> {
    let auth = hid_adapter::authorization_text(authorization);
    if manager_state == 0 {
        Some(
            "macOS CoreBluetooth 状态仍为 Unknown，授权状态为“"@ + auth
                + "”，正在等待蓝牙控制器回调"@,
        )
    } else if manager_state == 1 {
        Some("macOS 蓝牙控制器正在重置（Resetting），正在等待恢复"@)
    } else if manager_state == 2 {
        Some("此 Mac 不支持 BLE 外设角色（CoreBluetooth Unsupported）"@)
    } else if manager_state == 3 {
        Some("macOS 未授权“快投屏”使用 BLE 外设角色（授权状态："@ + auth + "）"@)
    } else if manager_state == 4 {
        Some("macOS 蓝牙当前已关闭（CoreBluetooth PoweredOff）"@)
    } else if manager_state == 5 {
        None
    } else {
        Some(
            "macOS CoreBluetooth 返回未知状态 "@ + text::dec_int(manager_state as int)
                + "（授权状态："@ + auth + "）"@,
        )
    }
}

/// What is wrong with the link, by the codes of a status report: the state of the controller
/// first, then the operation that failed. That the permission is granted does not mean that
/// the controller is on, so the two are told apart.
pub open spec fn native_problem(
    error_code: i32,
    manager_state: i32,
    authorization: i32,
    native_error_code: i32,
) -> Option<Seq<char>> {
    let auth = hid_adapter::authorization_text(authorization);
    let state = manager_state_text(manager_state);
    match state_problem(manager_state, authorization) {
        Some(m) => Some(m),
        None => if error_code == 0 {
            None
        } else if error_code == -30 {
            Some(
                "macOS 蓝牙权限尚未确认（授权状态："@ + auth
                    + "）：CoreBluetooth 已回调广播成功，但射频不会真正发包，iPhone 无法发现「"@
                    + crate::APP_NAME@
                    + "」；请在 系统设置→隐私与安全性→蓝牙 允许本应用，然后完全退出并重启快投屏再启用控制"@,
            )
        } else {
            let operation = if error_code == -20 {
                "发布 HOGP GATT 服务失败，请查看 CoreBluetooth 服务错误"@
            } else if error_code == -21 {
                "启动 BLE 广播失败，请查看 CoreBluetooth 广播错误"@
            } else {
                "macOS CoreBluetooth HOGP 操作失败"@
            };
            let head = operation + "（错误码 "@ + text::dec_int(error_code as int);
            if native_error_code != 0 {
                Some(
                    head + "，CoreBluetooth 错误码 "@ + text::dec_int(native_error_code as int)
                        + "，状态 "@ + state + "）"@,
                )
            } else {
                Some(head + "，状态 "@ + state + "）"@)
            }
        },
    }
}

/// What is wrong with the link, by the codes of a status report.
pub fn native_status_error(
    error_code: i32,
    manager_state: i32,
    authorization: i32,
    native_error_code: i32,
) -> (r: Option<String>)
    ensures
        text::opt_text(r) == native_problem(
            error_code,
            manager_state,
            authorization,
            native_error_code,
        ),
{
    let auth = authorization_name(authorization);
    let state = manager_state_name(manager_state);
    match manager_state {
        0 => {
            return Some(
                text::cat3(
                    "macOS CoreBluetooth 状态仍为 Unknown，授权状态为“",
                    auth,
                    "”，正在等待蓝牙控制器回调",
                ),
            );
        },
        1 => {
            return Some(
                text::own("macOS 蓝牙控制器正在重置（Resetting），正在等待恢复"),
            );
        },
        2 => {
            return Some(
                text::own("此 Mac 不支持 BLE 外设角色（CoreBluetooth Unsupported）"),
            );
        },
        3 => {
            return Some(
                text::cat3(
                    "macOS 未授权“快投屏”使用 BLE 外设角色（授权状态：",
                    auth,
                    "）",
                ),
            );
        },
        4 => {
            return Some(text::own("macOS 蓝牙当前已关闭（CoreBluetooth PoweredOff）"));
        },
        5 => {},
        _ => {
            let code = text::decimal_signed(manager_state as i64);
            return Some(
                text::cat5(
                    "macOS CoreBluetooth 返回未知状态 ",
                    code.as_str(),
                    "（授权状态：",
                    auth,
                    "）",
                ),
            );
        },
    }
    if error_code == 0 {
        return None;
    }
    if error_code == -30 {
        return Some(
            text::cat5(
                "macOS 蓝牙权限尚未确认（授权状态：",
                auth,
                "）：CoreBluetooth 已回调广播成功，但射频不会真正发包，iPhone 无法发现「",
                crate::APP_NAME,
                "」；请在 系统设置→隐私与安全性→蓝牙 允许本应用，然后完全退出并重启快投屏再启用控制",
            ),
        );
    }
    let operation = if error_code == -20 {
        "发布 HOGP GATT 服务失败，请查看 CoreBluetooth 服务错误"
    } else if error_code == -21 {
        "启动 BLE 广播失败，请查看 CoreBluetooth 广播错误"
    } else {
        "macOS CoreBluetooth HOGP 操作失败"
    };
    let code = text::decimal_signed(error_code as i64);
    let head = text::cat3(operation, "（错误码 ", code.as_str());
    if native_error_code != 0 {
        let native = text::decimal_signed(native_error_code as i64);
        let mut s = text::cat5(
            head.as_str(),
            "，CoreBluetooth 错误码 ",
            native.as_str(),
            "，状态 ",
            state,
        );
        s.append("）");
        Some(s)
    } else {
        Some(text::cat4(head.as_str(), "，状态 ", state, "）"))
    }
}

/// A status report of the Bluetooth stack.
#[derive(Debug, Clone, Copy)]
pub struct NativeStatus {
    pub powered_on: bool,
    pub advertising: bool,
    pub subscribed: bool,
    pub connected: bool,
    pub input_report_mask: i32,
    pub error_code: i32,
    pub manager_state: i32,
    pub authorization: i32,
    pub native_error_code: i32,
}

/// The link after a status report.
pub open spec fn reported(link: HidStatus<Seq<char>>, s: NativeStatus) -> HidStatus<Seq<char>> {
    HidStatus {
        powered_on: s.powered_on,
        advertising: s.advertising,
        connected: s.connected,
        subscribed: s.subscribed,
        input_report_mask: if s.input_report_mask < 0 {
            0
        } else if s.input_report_mask > 255 {
            255
        } else {
            s.input_report_mask as u8
        },
        paired: s.connected,
        authorization: Some(s.authorization),
        control: if s.connected {
            ControlState::Connected
        } else if s.advertising {
            ControlState::Broadcasting
        } else {
            ControlState::Disabled
        },
        last_error: native_problem(
            s.error_code,
            s.manager_state,
            s.authorization,
            s.native_error_code,
        ),
        ..link
    }
}

/// Takes a status report into the state of the link.
pub fn apply_native_status(link: &mut HidStatus, s: NativeStatus)
    ensures
        final(link)@ == reported(old(link)@, s),
{
    link.powered_on = s.powered_on;
    link.advertising = s.advertising;
    link.connected = s.connected;
    link.subscribed = s.subscribed;
    link.input_report_mask = if s.input_report_mask < 0 {
        0
    } else if s.input_report_mask > 255 {
        255
    } else {
        s.input_report_mask as u8
    };
    link.paired = s.connected;
    link.authorization = Some(s.authorization);
    link.control = if s.connected {
        ControlState::Connected
    } else if s.advertising {
        ControlState::Broadcasting
    } else {
        ControlState::Disabled
    };
    link.last_error = native_status_error(
        s.error_code,
        s.manager_state,
        s.authorization,
        s.native_error_code,
    );
}

/// The link of a host that has just started.
pub fn new_macos_link(pairing_name: Option<String>) -> (r: HidStatus)
    ensures
        r@ == (HidStatus {
            control_transport: "ble"@,
            pairing_name: text::opt_text(pairing_name),
            advertised_name: Some(advertised(crate::APP_NAME@)),
            device_name: Some(crate::APP_NAME@ + " BLE HID"@),
            assistive_touch_hint: true,
            ..hid_adapter::no_link()
        }),
{
    let mut link = HidStatus::default();
    link.control_transport = text::own("ble");
    link.pairing_name = pairing_name;
    link.advertised_name = Some(compact_advertised_name(crate::APP_NAME));
    link.device_name = Some(text::cat2(crate::APP_NAME, " BLE HID"));
    link.assistive_touch_hint = true;
    link
}

/// What came of sending a report: the code that the Bluetooth stack returned.
pub fn send_result(result: i32, operation: &str, pairing_name: &Option<String>) -> (r: Result<
    (),
    AdapterError,
>)
    ensures
        result == 0 <==> r is Ok,
        r matches Err(e) ==> e@ == AdapterError::ControlInactive(
            (if result == -2 {
                "iOS 尚未订阅"@ + operation@
                    + "对应的 HID 输入特征，当前连接可能仍在完成 HID 握手"@
            } else {
                "iOS BLE HID 尚未订阅，无法发送"@ + operation@
            }) + "；请在 iPhone 设置→蓝牙中重新连接「"@ + (match text::opt_text(*pairing_name) {
                Some(n) => n,
                None => crate::APP_NAME@,
            }) + "」"@,
        ),
{
    if result == 0 {
        return Ok(());
    }
    let name = match pairing_name {
        Some(n) => text::own(n.as_str()),
        None => text::own(crate::APP_NAME),
    };
    let detail = if result == -2 {
        text::cat3(
            "iOS 尚未订阅",
            operation,
            "对应的 HID 输入特征，当前连接可能仍在完成 HID 握手",
        )
    } else {
        text::cat2("iOS BLE HID 尚未订阅，无法发送", operation)
    };
    Err(
        AdapterError::ControlInactive(
            text::cat4(
                detail.as_str(),
                "；请在 iPhone 设置→蓝牙中重新连接「",
                name.as_str(),
                "」",
            ),
        ),
    )
}

/// What came of making this host discoverable: the code of the Bluetooth stack, and the last
/// error of the link. A link that started keeps an error that was reported meanwhile.
pub fn start_result(has_handle: bool, result: i32, last_error: &Option<String>) -> (r: Result<
    (),
    AdapterError,
>)
    ensures
        r is Ok <==> has_handle && result == 0,
        r matches Err(e) ==> e@ == (if !has_handle {
            AdapterError::UnsupportedPlatform("macOS CoreBluetooth HOGP 初始化失败"@)
        } else {
            AdapterError::Failed(
                match text::opt_text(*last_error) {
                    Some(m) => m,
                    None => "macOS CoreBluetooth HOGP 启动失败"@,
                },
            )
        }),
{
    if !has_handle {
        return Err(
            AdapterError::UnsupportedPlatform(text::own("macOS CoreBluetooth HOGP 初始化失败")),
        );
    }
    if result != 0 {
        return Err(
            AdapterError::Failed(
                match last_error {
                    Some(m) => text::own(m.as_str()),
                    None => text::own("macOS CoreBluetooth HOGP 启动失败"),
                },
            ),
        );
    }
    Ok(())
}

/// The link shows what a report says: whether the adapter is on, advertises, is subscribed to and
/// connected, and the mask as far as it fits in a byte. It broadcasts exactly while it advertises
/// without a connection. What identifies the link stays.
pub proof fn links_show_what_is_reported(link: HidStatus<Seq<char>>, s: NativeStatus)
    ensures
        ({
            let r = reported(link, s);
            &&& r.powered_on == s.powered_on && r.advertising == s.advertising && r.subscribed
                == s.subscribed && r.connected == s.connected && r.paired == s.connected
            &&& 0 <= s.input_report_mask <= 255 ==> r.input_report_mask == s.input_report_mask
            &&& s.input_report_mask < 0 ==> r.input_report_mask == 0
            &&& s.input_report_mask > 255 ==> r.input_report_mask == 255
            &&& r.authorization == Some(s.authorization)
            &&& r.control is Broadcasting <==> s.advertising && !s.connected
            &&& r.control is Disabled <==> !s.advertising && !s.connected
            &&& r.last_error is None <==> s.manager_state == 5 && s.error_code == 0
            &&& r.pairing_name == link.pairing_name && r.advertised_name == link.advertised_name
                && r.device_name == link.device_name && r.control_transport
                == link.control_transport
        }),
{
}

/// A link has no problem exactly where the controller is on and nothing failed; a controller that
/// is not on is the first problem, whatever failed besides.
pub proof fn controllers_that_are_not_on_come_first(
    error_code: i32,
    other: i32,
    manager_state: i32,
    authorization: i32,
    native: i32,
)
    ensures
        native_problem(error_code, manager_state, authorization, native) is None <==> manager_state
            == 5 && error_code == 0,
        state_problem(manager_state, authorization) is None <==> manager_state == 5,
        manager_state != 5 ==> native_problem(error_code, manager_state, authorization, native)
            == native_problem(other, manager_state, authorization, native),
        manager_state_text(manager_state) == "PoweredOn"@ <==> manager_state == 5,
        manager_state_text(manager_state) == "PoweredOff"@ <==> manager_state == 4,
        manager_state_text(manager_state) == "Unauthorized"@ <==> manager_state == 3,
        manager_state_text(manager_state) == "Unsupported"@ <==> manager_state == 2,
        manager_state_text(manager_state) == "Resetting"@ <==> manager_state == 1,
        manager_state_text(manager_state) == "Unknown"@ <==> manager_state == 0,
{
    reveal_strlit("Unknown");
    reveal_strlit("Resetting");
    reveal_strlit("Unsupported");
    reveal_strlit("Unauthorized");
    reveal_strlit("PoweredOff");
    reveal_strlit("PoweredOn");
    reveal_strlit("未知");
    assert("Unknown"@.len() == 7 && "Resetting"@.len() == 9 && "Resetting"@[0] == 'R'
        && "Unsupported"@.len() == 11 && "Unauthorized"@.len() == 12 && "PoweredOff"@.len() == 10
        && "PoweredOn"@.len() == 9 && "PoweredOn"@[0] == 'P' && "未知"@.len() == 2);
}

/// A name that fits is advertised as it is, and a longer one of ASCII characters by its first
/// eight.
pub proof fn names_are_advertised_as_far_as_they_fit(name: Seq<char>)
    requires
        text::all_ascii(name),
    ensures
        0 < name.len() <= 8 ==> advertised(name) == name,
        name.len() > 8 ==> advertised(name) == name.take(8),
{
    text::ascii_texts_are_cut_by_character(name, 8);
}

/// A report of a connection makes the link connected whatever it was before, and one without
/// a connection never does.
pub proof fn connection_decides_control(link: HidStatus<Seq<char>>, s: NativeStatus)
    ensures
        (reported(link, s).control is Connected) == s.connected,
        reported(link, s).paired == s.connected,
{
}

/// An operation that failed is named by its code: the publishing of the service, the start of
/// the advertising, the permission, or another one.
pub proof fn failed_operations_are_named(error_code: i32, authorization: i32, native: i32)
    requires
        error_code != 0,
    ensures
        ({
            let problem = native_problem(error_code, 5, authorization, native);
            &&& error_code == -20 ==> "发布 HOGP GATT 服务失败"@.is_prefix_of(problem->Some_0)
            &&& error_code == -21 ==> "启动 BLE 广播失败"@.is_prefix_of(problem->Some_0)
            &&& error_code == -30 ==> "macOS 蓝牙权限尚未确认"@.is_prefix_of(problem->Some_0)
            &&& error_code != -20 && error_code != -21 && error_code != -30
                ==> "macOS CoreBluetooth HOGP 操作失败"@.is_prefix_of(problem->Some_0)
            &&& problem is Some
        }),
{
    reveal_strlit("发布 HOGP GATT 服务失败");
    reveal_strlit("发布 HOGP GATT 服务失败，请查看 CoreBluetooth 服务错误");
    reveal_strlit("启动 BLE 广播失败");
    reveal_strlit("启动 BLE 广播失败，请查看 CoreBluetooth 广播错误");
    reveal_strlit("macOS 蓝牙权限尚未确认");
    reveal_strlit("macOS 蓝牙权限尚未确认（授权状态：");
    reveal_strlit("macOS CoreBluetooth HOGP 操作失败");
}

} // verus!
