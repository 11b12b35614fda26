//! How the control of a device starts, and what its input link reports.
//!
//! An iPhone is controlled over Bluetooth, or over USB where that is chosen; an Android phone
//! over the control channel of its screen. USB is never replaced by Bluetooth in silence: a
//! relative pointer cannot keep the point that was chosen in the picture.
use vstd::prelude::*;

use crate::integrations::adb;
use crate::integrations::hid_adapter;
use crate::integrations::hid_adapter::{authorization_name, HidStatus};
use crate::integrations::mirror_adapter::MirrorEvent;
use crate::integrations::wda_requests::ScreenSize;
use crate::integrations::AdapterError;
use crate::session::device;
use crate::session::device::{
    keyboard_input_ready, mouse_input_ready, DeviceKind, DeviceSession, InputKind, SessionModel,
};
use crate::session::manager;
use crate::session::manager::{Notice, SessionPreferences};
use crate::session::state;
use crate::session::state::{
    derive_control_state, ControlState, SessionEvent, SessionStateName,
};
use crate::text;
use crate::APP_NAME;

verus! {

/// How control is started.
#[derive(Debug, Clone, Copy, PartialEq, Eq, Structural)]
pub enum ControlPlan {
    /// The Bluetooth controller starts to advertise.
    Ble,
    /// The iPhone is connected over USB.
    IosUsb,
    /// The control channel of the screen is used.
    Scrcpy,
}

/// A status that says that input goes through.
pub open spec fn link_up(
    base: HidStatus<Seq<char>>,
    transport: Seq<char>,
    control: ControlState,
    name: Option<Seq<char>>,
) -> HidStatus<Seq<char>> {
    HidStatus {
        control,
        paired: true,
        connected: true,
        subscribed: true,
        control_transport: transport,
        device_name: name,
        ..base
    }
}

fn status_up(transport: &str, control: ControlState, name: Option<String>) -> (r: HidStatus)
    ensures
        r@ == link_up(hid_adapter::no_link(), transport@, control, text::opt_text(name)),
{
    let mut s = HidStatus::default();
    s.control = control;
    s.paired = true;
    s.connected = true;
    s.subscribed = true;
    s.control_transport = text::own(transport);
    s.device_name = name;
    s
}

/// Whether an error of the Bluetooth stack only says that it is not ready yet.
pub open spec fn is_transient(error: Seq<char>) -> bool {
    text::occurs(error, "Unknown"@) || text::occurs(error, "重置"@)
}

fn transient(error: &str) -> (r: bool)
    ensures
        r == is_transient(error@),
{
    text::contains(error, "Unknown") || text::contains(error, "重置")
}

/// What the phone has subscribed to, in words.
pub open spec fn input_summary(mask: u8) -> Seq<char> {
    match (device::keyboard_subscribed(mask), device::mouse_subscribed(mask)) {
        (true, true) => "键盘和鼠标"@,
        (true, false) => "键盘"@,
        (false, true) => "鼠标"@,
        (false, false) => "无"@,
    }
}

pub open spec fn or_text(v: Option<Seq<char>>, other: Seq<char>) -> Seq<char> {
    match v {
        Some(s) => s,
        None => other,
    }
}

fn text_or(v: &Option<String>, other: &str) -> (r: String)
    ensures
        r@ == or_text(text::opt_text(*v), other@),
{
    match v {
        Some(s) => text::own(s.as_str()),
        None => text::own(other),
    }
}

/// What is said when the Bluetooth controller starts to advertise.
pub open spec fn broadcasting_text(s: HidStatus<Seq<char>>) -> Seq<char> {
    "iOS BLE HID 已请求广播；实际 BLE 广播短名为「"@ + or_text(s.advertised_name, APP_NAME@)
        + "」。iPhone 蓝牙列表通常显示 macOS 本机名称「"@ + or_text(
        s.pairing_name,
        "本机名称"@,
    ) + "」，不一定显示「"@ + APP_NAME@ + "」，请连接该本机条目"@
}

/// What is said when the Bluetooth controller advertises.
pub open spec fn advertising_text(s: HidStatus<Seq<char>>) -> Seq<char> {
    "iOS BLE HID GATT 服务已发布，广播已启动（授权状态："@ + (match s.authorization {
        Some(code) => hid_adapter::authorization_text(code),
        None => "-"@,
    }) + "，实际 BLE 广播短名："@ + or_text(s.advertised_name, APP_NAME@)
        + "）；macOS 的 iPhone 系统蓝牙列表可能显示本机/GAP 名称而不是「"@ + APP_NAME@
        + "」，请连接列表中的对应本机条目"@
}

/// What is said when the phone has subscribed.
pub open spec fn subscribed_text(mask: u8) -> Seq<char> {
    "iOS BLE HID 已连接并订阅"@ + input_summary(mask) + "输入报告（输入报告掩码 0x"@
        + text::hex(mask as nat, 2, true) + "），BLE 通知通道已就绪"@
}

impl SessionModel {
    /// Why control cannot start; nothing where it can.
    pub open spec fn control_obstacle(self) -> Option<AdapterError<Seq<char>>> {
        if !(self.state is MirroringConnected) {
            Some(AdapterError::ControlInactive("仅镜像已连接时才能启用控制"@))
        } else {
            None
        }
    }

    pub open spec fn with_prefs(self, prefs: Option<SessionPreferences>) -> SessionModel {
        match prefs {
            Some(p) => SessionModel { prefs: p, ..self },
            None => self,
        }
    }

    /// After control began to start.
    pub open spec fn after_enable(self, at: Seq<char>) -> SessionModel {
        if self.control_obstacle() is Some {
            self
        } else {
            self.applied(SessionEvent::UserEnableControl, None, at)
        }
    }

    /// How control is started.
    pub open spec fn control_plan(self) -> ControlPlan {
        match self.kind {
            DeviceKind::Android => ControlPlan::Scrcpy,
            DeviceKind::Iphone => if self.prefs.ios_usb_control_enabled {
                ControlPlan::IosUsb
            } else {
                ControlPlan::Ble
            },
        }
    }

    /// After control could not start.
    pub open spec fn after_control_failed(self, e: AdapterError<Seq<char>>, at: Seq<char>) -> SessionModel {
        self.failed_with(e, false, at).applied(
            SessionEvent::UserCancelControl,
            Some("启用控制失败："@ + e.message_text()),
            at,
        )
    }

    /// After input became ready; `controller` is the status of the Bluetooth controller.
    pub open spec fn after_input_ready(
        self,
        name: Option<Seq<char>>,
        controller: HidStatus<Seq<char>>,
        at: Seq<char>,
    ) -> SessionModel {
        if !(self.state is ControlPairing) {
            self
        } else {
            let m = self.applied(SessionEvent::ControlPaired, Some("输入已就绪"@), at);
            let up = ControlState::Connected;
            match self.input {
                InputKind::Absent => m,
                InputKind::Ble => m.told(Notice::Hid(link_up(controller, "ble"@, up, name))),
                InputKind::IosUsb => m.told(
                    Notice::Hid(link_up(hid_adapter::no_link(), "usb_wda"@, up, name)),
                ),
                InputKind::Scrcpy => m.told(
                    Notice::Hid(link_up(hid_adapter::no_link(), "scrcpy"@, up, name)),
                ),
            }
        }
    }

    /// What is reported where the picture was lost meanwhile.
    pub open spec fn picture_lost(self) -> AdapterError<Seq<char>> {
        AdapterError::ControlInactive("镜像已断开，取消启用控制"@)
    }

    /// Why the Bluetooth controller is not used; nothing where it is.
    pub open spec fn ble_failure(self, outcome: Result<HidStatus<Seq<char>>, AdapterError<Seq<char>>>) -> Option<
        AdapterError<Seq<char>>,
    > {
        match outcome {
            Err(e) => Some(e),
            Ok(_) => if self.state is ControlPairing {
                None
            } else {
                Some(self.picture_lost())
            },
        }
    }

    /// After the Bluetooth controller started to advertise, or did not.
    pub open spec fn after_ble(
        self,
        outcome: Result<HidStatus<Seq<char>>, AdapterError<Seq<char>>>,
        at: Seq<char>,
    ) -> SessionModel {
        match self.ble_failure(outcome) {
            Some(e) => self.after_control_failed(e, at),
            None => {
                let s = HidStatus { control_transport: "ble"@, ..outcome->Ok_0 };
                SessionModel { input: InputKind::Ble, ..self }.told(Notice::Hid(s)).logged(
                    "info"@,
                    "control_broadcasting"@,
                    broadcasting_text(s),
                    at,
                )
            },
        }
    }

    /// Why the connection over USB is not used; nothing where it is.
    pub open spec fn usb_failure(self, outcome: Result<ScreenSize, AdapterError<Seq<char>>>) -> Option<
        AdapterError<Seq<char>>,
    > {
        match outcome {
            Err(e) => Some(e),
            Ok(_) => if self.state is ControlPairing {
                None
            } else {
                Some(self.picture_lost())
            },
        }
    }

    /// After the iPhone was connected over USB, or was not.
    pub open spec fn after_usb(self, outcome: Result<ScreenSize, AdapterError<Seq<char>>>, at: Seq<char>) -> SessionModel {
        match self.usb_failure(outcome) {
            Some(e) => self.logged(
                "error"@,
                "ios_usb_required"@,
                "iOS USB/WDA 精确控制未就绪，未回退 BLE；请先准备并运行 WDA、iproxy 和 USB 信任："@
                    + e.message_text(),
                at,
            ).after_control_failed(e, at),
            None => {
                let size = outcome->Ok_0;
                SessionModel {
                    input: InputKind::IosUsb,
                    ios_drag: false,
                    ..self
                }.after_input_ready(
                    Some("iOS USB/WDA"@),
                    hid_adapter::no_link(),
                    at,
                ).logged(
                    "info"@,
                    "ios_usb_control"@,
                    "iOS USB/WDA 绝对坐标输入已就绪（WDA 逻辑屏幕 "@ + device::size_text(
                        size.width,
                        size.height,
                    ) + "，画面仍走 AirPlay）"@,
                    at,
                )
            },
        }
    }

    /// Why the control channel is not used; nothing where it is.
    pub open spec fn channel_failure(self, connected: bool) -> Option<AdapterError<Seq<char>>> {
        if self.screen is None {
            Some(AdapterError::ControlInactive("Android 投屏源不存在"@))
        } else if !connected {
            Some(
                AdapterError::ControlInactive(
                    "scrcpy 控制通道尚未连接，请等待画面首帧后重试"@,
                ),
            )
        } else {
            None
        }
    }

    /// After the control channel was used, or was not.
    pub open spec fn after_channel(self, connected: bool, at: Seq<char>) -> SessionModel {
        match self.channel_failure(connected) {
            Some(e) => self.after_control_failed(e, at),
            None => SessionModel { input: InputKind::Scrcpy, ..self }.after_input_ready(
                Some(
                    match self.android_serial {
                        Some(s) => adb::masked_serial(s),
                        None => "Android 设备"@,
                    },
                ),
                hid_adapter::no_link(),
                at,
            ),
        }
    }

    /// Whether control starts by itself.
    pub open spec fn starts_itself(self) -> bool {
        self.prefs.auto_control && self.state is MirroringConnected
    }

    /// After an Android phone was to be controlled by itself.
    pub open spec fn after_auto(self, connected: bool, at: Seq<char>) -> SessionModel {
        if !self.starts_itself() {
            self
        } else {
            let m = self.after_enable(at);
            match m.channel_failure(connected) {
                None => m.after_channel(connected, at),
                Some(e) => m.after_channel(connected, at).logged(
                    "warn"@,
                    "control_pending"@,
                    "自动启用 scrcpy 控制失败："@ + AdapterError::Failed(
                        "启用控制失败："@ + e.message_text(),
                    ).message_text(),
                    at,
                ),
            }
        }
    }

    /// After the first frame of an Android phone came; where the picture was lost, it is back.
    pub open spec fn after_android_frame(
        self,
        width: u32,
        height: u32,
        connected: bool,
        at: Seq<char>,
    ) -> SessionModel {
        let m = self.told(Notice::Metadata { width, height });
        let m = SessionModel { last_metadata: Some((width, height)), ..m };
        let m = if self.state is Mirroring {
            m.applied(
                SessionEvent::FirstFrame,
                Some(device::size_text(width, height)),
                at,
            ).logged(
                "info"@,
                "first_frame"@,
                "已解码 Android 首帧（"@ + device::size_text(width, height) + "）"@,
                at,
            )
        } else {
            m.after_reconnected(at)
        };
        m.after_auto(connected, at)
    }

    /// After the control channel of an Android phone stood.
    pub open spec fn after_channel_ready(self, at: Seq<char>) -> SessionModel {
        self.logged(
            "info"@,
            "control_channel"@,
            "scrcpy 控制通道已连接"@,
            at,
        ).after_auto(true, at)
    }

    /// After a status of the Bluetooth controller was told, and what it says of itself.
    pub open spec fn with_status_told(self, status: HidStatus<Seq<char>>, at: Seq<char>) -> SessionModel {
        let m = self.told(Notice::Hid(status));
        match status.last_error {
            Some(error) => m.logged(
                if is_transient(error) {
                    "warn"@
                } else {
                    "error"@
                },
                "ble_hid_status"@,
                "iOS BLE HID："@ + error,
                at,
            ),
            None => if status.advertising && !status.connected && self.state is ControlPairing {
                m.logged("info"@, "ble_hid_advertising"@, advertising_text(status), at)
            } else {
                m
            },
        }
    }

    /// After the Bluetooth controller reported its status; `controller` is the status that it
    /// has itself.
    pub open spec fn after_hid_status(
        self,
        status: HidStatus<Seq<char>>,
        controller: HidStatus<Seq<char>>,
        at: Seq<char>,
    ) -> SessionModel {
        let m = self.with_status_told(status, at);
        if status.connected && status.subscribed {
            if self.state is ControlPairing {
                m.after_input_ready(status.device_name, controller, at).logged(
                    "info"@,
                    "control_connected"@,
                    subscribed_text(status.input_report_mask),
                    at,
                )
            } else {
                m
            }
        } else if !(self.input is Absent) && self.state is ControlReady {
            m.applied(
                SessionEvent::BleDisconnected,
                Some("iOS BLE HID 已断开"@),
                at,
            ).logged(
                "warn"@,
                "control_disconnected"@,
                "iOS BLE HID 连接已断开（手机取消了键鼠报告订阅），键盘和鼠标输入已暂停；请在 iPhone 蓝牙中重新连接列表中的对应本机条目"@,
                at,
            )
        } else {
            m
        }
    }

    /// The status of the input link; `controller` is that of the Bluetooth controller.
    pub open spec fn link_status(self, controller: HidStatus<Seq<char>>) -> HidStatus<Seq<char>> {
        let control = state::control_of(self.state);
        match self.input {
            InputKind::Absent => hid_adapter::no_link(),
            InputKind::Ble => if controller.control_transport.len() == 0 {
                HidStatus { control_transport: "ble"@, ..controller }
            } else {
                controller
            },
            InputKind::IosUsb => link_up(
                hid_adapter::no_link(),
                "usb_wda"@,
                control,
                Some("iOS USB/WDA"@),
            ),
            InputKind::Scrcpy => link_up(
                hid_adapter::no_link(),
                "scrcpy"@,
                control,
                match self.android_serial {
                    Some(s) => Some(adb::masked_serial(s)),
                    None => None,
                },
            ),
        }
    }
}

/// Control goes over the link that the phone has: an Android phone is controlled over the
/// channel of its screen and over nothing else, an iPhone over USB exactly where that is chosen,
/// and over Bluetooth otherwise. What is chosen is what the request says, where it says it.
pub proof fn control_goes_over_the_link_of_the_phone(
    m: SessionModel,
    prefs: Option<SessionPreferences>,
)
    ensures
        ({
            let plan = m.with_prefs(prefs).control_plan();
            let usb = match prefs {
                Some(p) => p.ios_usb_control_enabled,
                None => m.prefs.ios_usb_control_enabled,
            };
            &&& plan is Scrcpy <==> m.kind is Android
            &&& plan is IosUsb <==> m.kind is Iphone && usb
            &&& plan is Ble <==> m.kind is Iphone && !usb
        }),
{
}

/// Control can be enabled exactly while the picture is there and nothing controls it yet; the
/// session then waits for the link, and nothing but the wishes of the user changes otherwise.
pub proof fn control_is_enabled_on_a_picture(
    m: SessionModel,
    prefs: Option<SessionPreferences>,
    at: Seq<char>,
)
    ensures
        m.control_obstacle() is None <==> m.state is MirroringConnected,
        m.control_obstacle() is None ==> m.with_prefs(prefs).after_enable(at).state
            is ControlPairing,
        m.control_obstacle() is Some ==> m.with_prefs(prefs).after_enable(at).state == m.state,
        m.with_prefs(prefs).after_enable(at).input == m.input,
        prefs matches Some(p) ==> m.with_prefs(prefs).after_enable(at).prefs == p,
        prefs is None ==> m.with_prefs(prefs).after_enable(at).prefs == m.prefs,
{
}

/// Whether a session has told that input goes through a link with a name.
pub open spec fn tells_link(before: SessionModel, after: SessionModel, transport: Seq<char>) -> bool {
    exists|i: int|
        before.outbox.len() <= i < after.outbox.len() && (#[trigger] after.outbox[i] matches
            Notice::Hid(s) && s.control_transport == transport && s.connected && s.subscribed
            && s.control is Connected)
}

/// A link that stands is the one that input goes over from then on, and the session is in
/// control; a Bluetooth controller that only advertises is chosen but not yet in control.
pub proof fn links_that_stand_are_used(
    m: SessionModel,
    status: HidStatus<Seq<char>>,
    size: ScreenSize,
    at: Seq<char>,
)
    requires
        m.state is ControlPairing,
    ensures
        m.after_ble(Ok(status), at).input is Ble,
        m.after_ble(Ok(status), at).state is ControlPairing,
        m.after_usb(Ok(size), at).input is IosUsb,
        m.after_usb(Ok(size), at).state is ControlReady,
        tells_link(m, m.after_usb(Ok(size), at), "usb_wda"@),
        m.screen is Some ==> m.after_channel(true, at).input is Scrcpy,
        m.screen is Some ==> m.after_channel(true, at).state is ControlReady,
        m.screen is Some ==> tells_link(m, m.after_channel(true, at), "scrcpy"@),
{
    let u = m.after_usb(Ok(size), at);
    let c = m.after_channel(true, at);
    let n = m.outbox.len() as int;
    assert(u.outbox[n + 1] is Hid);
    if m.screen is Some {
        assert(c.outbox[n + 1] is Hid);
    }
}

/// A link that does not stand is not used: the picture goes on without control, the error is
/// kept, and input goes where it went before.
pub proof fn links_that_fail_leave_the_picture(
    m: SessionModel,
    e: AdapterError<Seq<char>>,
    at: Seq<char>,
)
    requires
        m.state is ControlPairing,
    ensures
        m.after_ble(Err(e), at).state is MirroringConnected,
        m.after_ble(Err(e), at).input == m.input,
        m.after_ble(Err(e), at).last_error == Some(manager::session_error(e, false)),
        m.after_usb(Err(e), at).state is MirroringConnected,
        m.after_usb(Err(e), at).input == m.input,
        m.after_usb(Err(e), at).last_error == Some(manager::session_error(e, false)),
        m.after_channel(false, at).state is MirroringConnected,
        m.after_channel(false, at).input == m.input,
        m.after_channel(false, at).last_error is Some,
        m.screen is None ==> m.after_channel(true, at).state is MirroringConnected,
{
}

/// A phone that subscribes takes control of a session that waits for it; one that no longer
/// does loses it, while the picture goes on.
pub proof fn subscriptions_decide_bluetooth_control(
    m: SessionModel,
    status: HidStatus<Seq<char>>,
    controller: HidStatus<Seq<char>>,
    at: Seq<char>,
)
    requires
        m.input is Ble,
    ensures
        m.state is ControlPairing && status.connected && status.subscribed
            ==> m.after_hid_status(status, controller, at).state is ControlReady,
        m.state is ControlReady && !(status.connected && status.subscribed)
            ==> m.after_hid_status(status, controller, at).state is MirroringConnected,
        m.state is ControlReady && status.connected && status.subscribed
            ==> m.after_hid_status(status, controller, at).state is ControlReady,
        m.after_hid_status(status, controller, at).input is Ble,
{
}

/// An Android phone whose picture came is controlled by itself exactly where that is wished and
/// its control channel stands.
pub proof fn control_starts_by_itself_where_wished(
    m: SessionModel,
    width: u32,
    height: u32,
    connected: bool,
    at: Seq<char>,
)
    requires
        m.state is Mirroring,
        m.screen is Some,
    ensures
        ({
            let n = m.after_android_frame(width, height, connected, at);
            &&& n.state is ControlReady <==> m.prefs.auto_control && connected
            &&& n.state is MirroringConnected <==> !(m.prefs.auto_control && connected)
            &&& n.input is Scrcpy <==> m.prefs.auto_control && connected || m.input is Scrcpy
            &&& n.last_metadata == Some((width, height))
        }),
{
}

/// What is shown of the link of a session is the link that its input goes over.
pub proof fn links_are_shown_as_they_are(m: SessionModel, controller: HidStatus<Seq<char>>)
    ensures
        m.input is Absent ==> !m.link_status(controller).connected && m.link_status(
            controller,
        ).control_transport == ""@,
        m.input is Ble && controller.control_transport.len() > 0 ==> m.link_status(controller)
            == controller,
        m.input is Ble && controller.control_transport.len() == 0 ==> m.link_status(
            controller,
        ).control_transport == "ble"@ && m.link_status(controller).connected
            == controller.connected,
        m.input is IosUsb ==> m.link_status(controller).control_transport == "usb_wda"@
            && m.link_status(controller).connected,
        m.input is Scrcpy ==> m.link_status(controller).control_transport == "scrcpy"@
            && m.link_status(controller).connected,
        m.input is IosUsb || m.input is Scrcpy ==> (m.link_status(controller).control
            is Connected <==> m.state is ControlReady),
{
}

/// Control over USB never falls back to Bluetooth: where it is chosen, the Bluetooth
/// controller is not the plan, and a connection that fails leaves no input behind.
pub proof fn usb_is_not_replaced_by_bluetooth(
    m: SessionModel,
    outcome: Result<ScreenSize, AdapterError<Seq<char>>>,
    at: Seq<char>,
)
    requires
        m.kind is Iphone,
        m.prefs.ios_usb_control_enabled,
        m.input is Absent,
    ensures
        m.control_plan() is IosUsb,
        !(m.after_usb(outcome, at).input is Ble),
        outcome is Err ==> m.after_usb(outcome, at).input is Absent,
{
}

/// A session is in `ControlReady` only after the phone has subscribed: a status that says only
/// that the controller advertises does not lead there.
pub proof fn advertising_is_not_control(
    m: SessionModel,
    status: HidStatus<Seq<char>>,
    controller: HidStatus<Seq<char>>,
    at: Seq<char>,
)
    requires
        !(m.state is ControlReady),
        !(status.connected && status.subscribed),
    ensures
        m.after_hid_status(status, controller, at).state == m.state,
{
}

/// A picture that comes back ends the reconnection, on an iPhone and on an Android phone.
pub proof fn a_returning_picture_ends_the_reconnection(
    m: SessionModel,
    width: u32,
    height: u32,
    connected: bool,
    at: Seq<char>,
)
    requires
        m.state is Reconnecting,
    ensures
        m.after_mirror_event(MirrorEvent::MirrorConnected, at).state is MirroringConnected,
        !m.after_mirror_event(MirrorEvent::MirrorConnected, at).reconnect_armed,
        m.after_mirror_event(MirrorEvent::FirstFrame, at).state is MirroringConnected,
        !m.after_mirror_event(MirrorEvent::FirstFrame, at).reconnect_armed,
        ({
            let n = m.after_android_frame(width, height, connected, at);
            &&& n.has_picture()
            &&& !n.reconnect_armed
            &&& n.reconnect_attempts == 0
            &&& !m.prefs.auto_control ==> n.state is MirroringConnected
        }),
{
}

impl DeviceSession {
    /// Begins to start control, and says how.
    pub fn start_control(&mut self, prefs: Option<SessionPreferences>, at: &str) -> (r: Result<
        ControlPlan,
        AdapterError,
    >)
        ensures
            final(self)@ == old(self)@.with_prefs(prefs).after_enable(at@),
            match r {
                Ok(plan) => old(self)@.control_obstacle() is None && plan == old(
                    self,
                )@.with_prefs(prefs).control_plan(),
                Err(e) => old(self)@.control_obstacle() == Some(e@),
            },
            r matches Ok(plan) ==> (plan is Scrcpy <==> old(self)@.kind is Android),
            r matches Ok(plan) ==> (plan is IosUsb <==> old(self)@.kind is Iphone
                && final(self)@.prefs.ios_usb_control_enabled),
            r is Ok <==> old(self)@.state is MirroringConnected,
            r is Ok ==> final(self)@.state is ControlPairing,
    {
        match prefs {
            Some(p) => {
                self.prefs = p;
            },
            None => {},
        }
        let s = self.state.state();
        if !matches!(s, SessionStateName::MirroringConnected) {
            return Err(
                AdapterError::ControlInactive(text::own("仅镜像已连接时才能启用控制")),
            );
        }
        match self.apply(SessionEvent::UserEnableControl, None, at) {
            Err(e) => {
                return Err(e);
            },
            Ok(_) => {},
        }
        match self.kind {
            DeviceKind::Android => Ok(ControlPlan::Scrcpy),
            DeviceKind::Iphone => if self.prefs.ios_usb_control_enabled {
                Ok(ControlPlan::IosUsb)
            } else {
                Ok(ControlPlan::Ble)
            },
        }
    }

    fn control_failed(&mut self, e: AdapterError, at: &str) -> (r: AdapterError)
        ensures
            final(self)@ == old(self)@.after_control_failed(e@, at@),
            r@ == AdapterError::Failed("启用控制失败："@ + e@.message_text()),
    {
        let detail = text::cat2("启用控制失败：", e.message().as_str());
        self.set_last_error(&e, false, at);
        let _ = self.apply(
            SessionEvent::UserCancelControl,
            Some(text::own(detail.as_str())),
            at,
        );
        AdapterError::Failed(detail)
    }

    fn on_input_ready(&mut self, name: Option<String>, controller: HidStatus, at: &str)
        ensures
            final(self)@ == old(self)@.after_input_ready(
                text::opt_text(name),
                controller@,
                at@,
            ),
    {
        let s = self.state.state();
        if !matches!(s, SessionStateName::ControlPairing) {
            return;
        }
        let _ = self.apply(SessionEvent::ControlPaired, Some(text::own("输入已就绪")), at);
        match self.input {
            InputKind::Absent => {},
            InputKind::Ble => {
                let mut status = controller;
                status.control = ControlState::Connected;
                status.paired = true;
                status.connected = true;
                status.subscribed = true;
                status.device_name = name;
                status.control_transport = text::own("ble");
                self.tell(Notice::Hid(status));
            },
            InputKind::IosUsb => {
                let status = status_up("usb_wda", ControlState::Connected, name);
                self.tell(Notice::Hid(status));
            },
            InputKind::Scrcpy => {
                let status = status_up("scrcpy", ControlState::Connected, name);
                self.tell(Notice::Hid(status));
            },
        }
    }

    /// Notes that the phone has paired.
    pub fn on_hid_paired(&mut self, name: Option<String>, controller: HidStatus, at: &str)
        ensures
            final(self)@ == old(self)@.after_input_ready(
                text::opt_text(name),
                controller@,
                at@,
            ),
    {
        self.on_input_ready(name, controller, at);
    }

    /// Goes on once the Bluetooth controller started to advertise, or did not. Where this is
    /// an error, the controller is to be stopped.
    pub fn ble_control_started(&mut self, outcome: Result<HidStatus, AdapterError>, at: &str) -> (r:
        Result<(), AdapterError>)
        ensures
            ({
                let o = match outcome {
                    Ok(s) => Ok(s@),
                    Err(e) => Err(e@),
                };
                final(self)@ == old(self)@.after_ble(o, at@) && match r {
                    Ok(_) => old(self)@.ble_failure(o) is None,
                    Err(e) => (match old(self)@.ble_failure(o) {
                        Some(why) => e@ == AdapterError::Failed(
                            "启用控制失败："@ + why.message_text(),
                        ),
                        None => false,
                    }),
                }
            }),
    {
        let s = self.state.state();
        match outcome {
            Err(e) => Err(self.control_failed(e, at)),
            Ok(mut status) => {
                if !matches!(s, SessionStateName::ControlPairing) {
                    let e = AdapterError::ControlInactive(
                        text::own("镜像已断开，取消启用控制"),
                    );
                    return Err(self.control_failed(e, at));
                }
                status.control_transport = text::own("ble");
                self.input = InputKind::Ble;
                let advertised = text_or(&status.advertised_name, APP_NAME);
                let pairing = text_or(&status.pairing_name, "本机名称");
                let mut message = text::cat5(
                    "iOS BLE HID 已请求广播；实际 BLE 广播短名为「",
                    advertised.as_str(),
                    "」。iPhone 蓝牙列表通常显示 macOS 本机名称「",
                    pairing.as_str(),
                    "」，不一定显示「",
                );
                message.append(APP_NAME);
                message.append("」，请连接该本机条目");
                self.tell(Notice::Hid(status));
                self.emit_log("info", "control_broadcasting", message.as_str(), at);
                Ok(())
            },
        }
    }

    /// Goes on once the iPhone was connected over USB, or was not.
    pub fn usb_control_started(&mut self, outcome: Result<ScreenSize, AdapterError>, at: &str) -> (r:
        Result<(), AdapterError>)
        ensures
            ({
                let o = match outcome {
                    Ok(s) => Ok(s),
                    Err(e) => Err(e@),
                };
                final(self)@ == old(self)@.after_usb(o, at@) && match r {
                    Ok(_) => old(self)@.usb_failure(o) is None,
                    Err(e) => (match old(self)@.usb_failure(o) {
                        Some(why) => e@ == AdapterError::Failed(
                            "启用控制失败："@ + why.message_text(),
                        ),
                        None => false,
                    }),
                }
            }),
    {
        let s = self.state.state();
        let settled = match outcome {
            Err(e) => Err(e),
            Ok(size) => if matches!(s, SessionStateName::ControlPairing) {
                Ok(size)
            } else {
                Err(AdapterError::ControlInactive(text::own("镜像已断开，取消启用控制")))
            },
        };
        match settled {
            Err(e) => {
                let message = text::cat2(
                    "iOS USB/WDA 精确控制未就绪，未回退 BLE；请先准备并运行 WDA、iproxy 和 USB 信任：",
                    e.message().as_str(),
                );
                self.emit_log("error", "ios_usb_required", message.as_str(), at);
                Err(self.control_failed(e, at))
            },
            Ok(size) => {
                self.input = InputKind::IosUsb;
                self.ios_drag = false;
                self.on_input_ready(Some(text::own("iOS USB/WDA")), HidStatus::default(), at);
                let message = text::cat3(
                    "iOS USB/WDA 绝对坐标输入已就绪（WDA 逻辑屏幕 ",
                    device::say_size(size.width, size.height).as_str(),
                    "，画面仍走 AirPlay）",
                );
                self.emit_log("info", "ios_usb_control", message.as_str(), at);
                Ok(())
            },
        }
    }

    /// Goes on with the control channel of an Android phone.
    pub fn scrcpy_control_started(&mut self, connected: bool, at: &str) -> (r: Result<
        (),
        AdapterError,
    >)
        ensures
            final(self)@ == old(self)@.after_channel(connected, at@),
            match r {
                Ok(_) => old(self)@.channel_failure(connected) is None,
                Err(e) => (match old(self)@.channel_failure(connected) {
                    Some(why) => e@ == AdapterError::Failed(
                        "启用控制失败："@ + why.message_text(),
                    ),
                    None => false,
                }),
            },
    {
        if self.screen.is_none() {
            let e = AdapterError::ControlInactive(text::own("Android 投屏源不存在"));
            return Err(self.control_failed(e, at));
        }
        if !connected {
            let e = AdapterError::ControlInactive(
                text::own("scrcpy 控制通道尚未连接，请等待画面首帧后重试"),
            );
            return Err(self.control_failed(e, at));
        }
        self.input = InputKind::Scrcpy;
        let name = match &self.android_serial {
            Some(s) => adb::mask_serial(s.as_str()),
            None => text::own("Android 设备"),
        };
        self.on_input_ready(Some(name), HidStatus::default(), at);
        Ok(())
    }

    /// Starts the control of an Android phone where it is to start by itself.
    pub fn maybe_start_android_auto_control(&mut self, connected: bool, at: &str)
        ensures
            final(self)@ == old(self)@.after_auto(connected, at@),
    {
        let s = self.state.state();
        if !self.prefs.auto_control || !matches!(s, SessionStateName::MirroringConnected) {
            return;
        }
        let _ = self.apply(SessionEvent::UserEnableControl, None, at);
        match self.scrcpy_control_started(connected, at) {
            Ok(_) => {},
            Err(e) => {
                let message = text::cat2(
                    "自动启用 scrcpy 控制失败：",
                    e.message().as_str(),
                );
                self.emit_log("warn", "control_pending", message.as_str(), at);
            },
        }
    }

    /// Notes that the first frame of an Android phone came; where the picture was lost, it is
    /// back.
    pub fn on_android_first_frame(&mut self, width: u32, height: u32, connected: bool, at: &str)
        ensures
            final(self)@ == old(self)@.after_android_frame(width, height, connected, at@),
    {
        let s = self.state.state();
        self.tell(Notice::Metadata { width, height });
        self.last_metadata = Some((width, height));
        if matches!(s, SessionStateName::Mirroring) {
            let size = device::say_size(width, height);
            let _ = self.apply(SessionEvent::FirstFrame, Some(text::own(size.as_str())), at);
            let message = text::cat3("已解码 Android 首帧（", size.as_str(), "）");
            self.emit_log("info", "first_frame", message.as_str(), at);
        } else {
            self.on_reconnect_success(at);
        }
        self.maybe_start_android_auto_control(connected, at);
    }

    /// Notes that the control channel of an Android phone stands.
    pub fn on_android_control_ready(&mut self, at: &str)
        ensures
            final(self)@ == old(self)@.after_channel_ready(at@),
    {
        self.emit_log("info", "control_channel", "scrcpy 控制通道已连接", at);
        self.maybe_start_android_auto_control(true, at);
    }

    /// Notes what the Bluetooth controller reports. That it advertises does not mean that the
    /// phone has subscribed; only then does control stand.
    pub fn on_hid_status(&mut self, status: HidStatus, controller: HidStatus, at: &str)
        ensures
            final(self)@ == old(self)@.after_hid_status(status@, controller@, at@),
    {
        let s = self.state.state();
        let pairing = matches!(s, SessionStateName::ControlPairing);
        self.tell(Notice::Hid(status.clone()));
        match &status.last_error {
            Some(error) => {
                let level = if transient(error.as_str()) {
                    "warn"
                } else {
                    "error"
                };
                let message = text::cat2("iOS BLE HID：", error.as_str());
                self.emit_log(level, "ble_hid_status", message.as_str(), at);
            },
            None => {
                if status.advertising && !status.connected && pairing {
                    let auth = match status.authorization {
                        Some(code) => authorization_name(code),
                        None => "-",
                    };
                    let advertised = text_or(&status.advertised_name, APP_NAME);
                    let mut message = text::cat5(
                        "iOS BLE HID GATT 服务已发布，广播已启动（授权状态：",
                        auth,
                        "，实际 BLE 广播短名：",
                        advertised.as_str(),
                        "）；macOS 的 iPhone 系统蓝牙列表可能显示本机/GAP 名称而不是「",
                    );
                    message.append(APP_NAME);
                    message.append("」，请连接列表中的对应本机条目");
                    self.emit_log("info", "ble_hid_advertising", message.as_str(), at);
                }
            },
        }
        if status.connected && status.subscribed {
            if pairing {
                let mask = status.input_report_mask;
                let keyboard = keyboard_input_ready(mask);
                let mouse = mouse_input_ready(mask);
                let summary = match (keyboard, mouse) {
                    (true, true) => "键盘和鼠标",
                    (true, false) => "键盘",
                    (false, true) => "鼠标",
                    (false, false) => "无",
                };
                self.on_input_ready(text::own_opt(&status.device_name), controller, at);
                let message = text::cat5(
                    "iOS BLE HID 已连接并订阅",
                    summary,
                    "输入报告（输入报告掩码 0x",
                    text::hex_text(mask as u64, 2, true).as_str(),
                    "），BLE 通知通道已就绪",
                );
                self.emit_log("info", "control_connected", message.as_str(), at);
            }
            return;
        }
        if matches!(self.input, InputKind::Absent) {
            return;
        }
        if matches!(s, SessionStateName::ControlReady) {
            let _ = self.apply(
                SessionEvent::BleDisconnected,
                Some(text::own("iOS BLE HID 已断开")),
                at,
            );
            self.emit_log(
                "warn",
                "control_disconnected",
                "iOS BLE HID 连接已断开（手机取消了键鼠报告订阅），键盘和鼠标输入已暂停；请在 iPhone 蓝牙中重新连接列表中的对应本机条目",
                at,
            );
        }
    }

    /// The status of the input link; `controller` is that of the Bluetooth controller.
    pub fn hid_status(&self, controller: HidStatus) -> (r: HidStatus)
        ensures
            r@ == self@.link_status(controller@),
    {
        let control = derive_control_state(self.state.state());
        match self.input {
            InputKind::Absent => HidStatus::default(),
            InputKind::Ble => {
                let mut status = controller;
                if status.control_transport.as_str().is_empty() {
                    status.control_transport = text::own("ble");
                }
                status
            },
            InputKind::IosUsb => status_up("usb_wda", control, Some(text::own("iOS USB/WDA"))),
            InputKind::Scrcpy => {
                let name = match &self.android_serial {
                    Some(s) => Some(adb::mask_serial(s.as_str())),
                    None => None,
                };
                status_up("scrcpy", control, name)
            },
        }
    }
}

// ---------------------------------------------------------------------------
// Watching the Bluetooth controller come up
// ---------------------------------------------------------------------------

/// What came of looking whether the Bluetooth controller advertises.
#[derive(Debug)]
pub enum PowerCheck<T = String> {
    /// There is nothing more to look for.
    Settled,
    /// Look again a little later.
    Again,
    /// It does not advertise.
    Warn(T),
}

impl View for PowerCheck<String> {
    type V = PowerCheck<Seq<char>>;

    open spec fn view(&self) -> PowerCheck<Seq<char>> {
        match self {
            PowerCheck::Settled => PowerCheck::Settled,
            PowerCheck::Again => PowerCheck::Again,
            PowerCheck::Warn(s) => PowerCheck::Warn(s@),
        }
    }
}

/// Why the Bluetooth controller does not advertise.
pub open spec fn silence_text(s: HidStatus<Seq<char>>) -> Seq<char> {
    match s.last_error {
        Some(e) => e,
        None => if !s.powered_on {
            "尚未收到 CoreBluetooth 的 PoweredOn 回调"@
        } else if !s.advertising {
            "CoreBluetooth 已上电，但尚未收到 HOGP 广播成功回调"@
        } else {
            "CoreBluetooth 状态尚未完成"@
        },
    }
}

/// What comes of looking whether the Bluetooth controller advertises.
pub open spec fn power_outcome(state: SessionStateName, s: HidStatus<Seq<char>>, time_left: bool) -> PowerCheck<
    Seq<char>,
> {
    let coming = match s.last_error {
        Some(e) => is_transient(e),
        None => !s.powered_on || !s.advertising,
    };
    if !(state is ControlPairing || state is MirroringConnected) {
        PowerCheck::Settled
    } else if s.powered_on && s.advertising && s.last_error is None {
        PowerCheck::Settled
    } else if coming && time_left {
        PowerCheck::Again
    } else {
        PowerCheck::Warn(
            "macOS BLE HID 尚未真正广播（"@ + or_text(s.device_name, "快投屏 BLE"@) + "）："@
                + silence_text(s)
                + "；iPhone 蓝牙列表不会出现对应 HID 条目。请确认系统蓝牙已开启，并在 系统设置→隐私与安全性→蓝牙 中允许本应用；如果刚修改过权限，请完全退出并重启快投屏后重试。"@,
        )
    }
}

/// Looks whether the Bluetooth controller advertises. While it is still coming up it is given
/// time, so that no fault is reported that is none.
pub fn check_power(state: SessionStateName, s: &HidStatus, time_left: bool) -> (r: PowerCheck)
    ensures
        r@ == power_outcome(state, s@, time_left),
{
    if !matches!(state, SessionStateName::ControlPairing | SessionStateName::MirroringConnected) {
        return PowerCheck::Settled;
    }
    if s.powered_on && s.advertising && s.last_error.is_none() {
        return PowerCheck::Settled;
    }
    let coming = match &s.last_error {
        Some(e) => transient(e.as_str()),
        None => !s.powered_on || !s.advertising,
    };
    if coming && time_left {
        return PowerCheck::Again;
    }
    let why = match &s.last_error {
        Some(e) => text::own(e.as_str()),
        None => if !s.powered_on {
            text::own("尚未收到 CoreBluetooth 的 PoweredOn 回调")
        } else if !s.advertising {
            text::own("CoreBluetooth 已上电，但尚未收到 HOGP 广播成功回调")
        } else {
            text::own("CoreBluetooth 状态尚未完成")
        },
    };
    let name = text_or(&s.device_name, "快投屏 BLE");
    PowerCheck::Warn(
        text::cat5(
            "macOS BLE HID 尚未真正广播（",
            name.as_str(),
            "）：",
            why.as_str(),
            "；iPhone 蓝牙列表不会出现对应 HID 条目。请确认系统蓝牙已开启，并在 系统设置→隐私与安全性→蓝牙 中允许本应用；如果刚修改过权限，请完全退出并重启快投屏后重试。",
        ),
    )
}

impl DeviceSession {
    /// Logs that the Bluetooth controller does not advertise.
    pub fn warn_silent(&mut self, message: &str, at: &str)
        ensures
            final(self)@ == old(self)@.logged("warn"@, "ble_not_powered"@, message@, at@),
    {
        self.emit_log("warn", "ble_not_powered", message, at);
    }
}

/// Looking at the Bluetooth controller ends where nobody waits for it or where it advertises; it
/// is looked at again while it is still coming up and there is time; otherwise its user is warned,
/// with its own error where it has one.
pub proof fn controllers_get_time_to_come_up(
    state: SessionStateName,
    s: HidStatus<Seq<char>>,
    time_left: bool,
)
    ensures
        ({
            let waited_for = state is ControlPairing || state is MirroringConnected;
            let up = s.powered_on && s.advertising && s.last_error is None;
            let coming = match s.last_error {
                Some(e) => text::occurs(e, "Unknown"@) || text::occurs(e, "重置"@),
                None => true,
            };
            let r = power_outcome(state, s, time_left);
            &&& r is Settled <==> !waited_for || up
            &&& r is Again <==> waited_for && !up && coming && time_left
            &&& r is Warn <==> waited_for && !up && !(coming && time_left)
            &&& s.last_error matches Some(e) ==> silence_text(s) == e
        }),
{
}

/// What a phone has subscribed to is named: the keyboard, the mouse, both or neither.
pub proof fn subscriptions_are_named(mask: u8)
    ensures
        input_summary(mask) == "键盘和鼠标"@ <==> device::keyboard_subscribed(mask)
            && device::mouse_subscribed(mask),
        input_summary(mask) == "键盘"@ <==> device::keyboard_subscribed(mask)
            && !device::mouse_subscribed(mask),
        input_summary(mask) == "鼠标"@ <==> !device::keyboard_subscribed(mask)
            && device::mouse_subscribed(mask),
        input_summary(mask) == "无"@ <==> !device::keyboard_subscribed(mask)
            && !device::mouse_subscribed(mask),
{
    reveal_strlit("键盘和鼠标");
    reveal_strlit("键盘");
    reveal_strlit("鼠标");
    reveal_strlit("无");
    assert("键盘和鼠标"@.len() == 5 && "键盘"@.len() == 2 && "鼠标"@.len() == 2 && "无"@.len()
        == 1);
    assert("键盘"@[0] != "鼠标"@[0]);
}

/// Every status of the Bluetooth controller is told as it came. An error that only says that the
/// controller is not ready yet is a warning; any other is kept as an error.
pub proof fn statuses_are_told_with_their_errors(
    m: SessionModel,
    status: HidStatus<Seq<char>>,
    controller: HidStatus<Seq<char>>,
    at: Seq<char>,
)
    ensures
        ({
            let n = m.after_hid_status(status, controller, at);
            let k = m.outbox.len() as int;
            &&& n.outbox.len() > k && n.outbox[k] == Notice::Hid(status)
            &&& status.last_error matches Some(e) ==> n.outbox.len() > k + 1 && n.outbox[k + 1]
                == Notice::Log(
                device::entry(
                    at,
                    if text::occurs(e, "Unknown"@) || text::occurs(e, "重置"@) {
                        "warn"@
                    } else {
                        "error"@
                    },
                    "ble_hid_status"@,
                    "iOS BLE HID："@ + e,
                ),
            )
        }),
{
    let k = m.outbox.len() as int;
    lemma_status_is_told(m, status, at);
    lemma_told_before_the_rest(m, status, controller, at);
    let t = m.with_status_told(status, at).outbox;
    let n = m.after_hid_status(status, controller, at).outbox;
    assert(n[k] == t[k]);
    if status.last_error is Some {
        assert(n[k + 1] == t[k + 1]);
    }
}

proof fn lemma_status_is_told(m: SessionModel, status: HidStatus<Seq<char>>, at: Seq<char>)
    ensures
        ({
            let t = m.with_status_told(status, at).outbox;
            let k = m.outbox.len() as int;
            &&& t.len() > k && t[k] == Notice::Hid(status)
            &&& status.last_error matches Some(e) ==> t.len() > k + 1 && t[k + 1] == Notice::Log(
                device::entry(
                    at,
                    if text::occurs(e, "Unknown"@) || text::occurs(e, "重置"@) {
                        "warn"@
                    } else {
                        "error"@
                    },
                    "ble_hid_status"@,
                    "iOS BLE HID："@ + e,
                ),
            )
        }),
{
    let first = m.told(Notice::Hid(status));
    match status.last_error {
        Some(error) => {
            let level = if is_transient(error) {
                "warn"@
            } else {
                "error"@
            };
            lemma_log_is_told(first, level, "ble_hid_status"@, "iOS BLE HID："@ + error, at);
        },
        None => {
            lemma_log_is_told(first, "info"@, "ble_hid_advertising"@, advertising_text(status), at);
        },
    }
}

#[verifier::rlimit(30)]
proof fn lemma_told_before_the_rest(
    m: SessionModel,
    status: HidStatus<Seq<char>>,
    controller: HidStatus<Seq<char>>,
    at: Seq<char>,
)
    ensures
        m.with_status_told(status, at).outbox.is_prefix_of(
            m.after_hid_status(status, controller, at).outbox,
        ),
{
    let t = m.with_status_told(status, at);
    let ready = t.after_input_ready(status.device_name, controller, at);
    assert(t.outbox.is_prefix_of(ready.outbox));
    lemma_log_is_told(
        ready,
        "info"@,
        "control_connected"@,
        subscribed_text(status.input_report_mask),
        at,
    );
    let lost = t.applied(SessionEvent::BleDisconnected, Some("iOS BLE HID 已断开"@), at);
    assert(t.outbox.is_prefix_of(lost.outbox));
    lemma_log_is_told(
        lost,
        "warn"@,
        "control_disconnected"@,
        "iOS BLE HID 连接已断开（手机取消了键鼠报告订阅），键盘和鼠标输入已暂停；请在 iPhone 蓝牙中重新连接列表中的对应本机条目"@,
        at,
    );
}

proof fn lemma_log_is_told(
    m: SessionModel,
    level: Seq<char>,
    code: Seq<char>,
    message: Seq<char>,
    at: Seq<char>,
)
    ensures
        m.outbox.is_prefix_of(m.logged(level, code, message, at).outbox),
        m.logged(level, code, message, at).outbox.len() > m.outbox.len(),
        m.logged(level, code, message, at).outbox[m.outbox.len() as int] == Notice::Log(
            device::entry(at, level, code, message),
        ),
{
}

/// A link that stands only after the picture was lost is not used, and the loss is reported.
pub proof fn links_that_come_too_late_are_not_used(
    m: SessionModel,
    status: HidStatus<Seq<char>>,
    size: ScreenSize,
    at: Seq<char>,
)
    requires
        !(m.state is ControlPairing),
    ensures
        m.ble_failure(Ok(status)) matches Some(e) && e is ControlInactive,
        m.usb_failure(Ok(size)) matches Some(e) && e is ControlInactive,
        m.after_ble(Ok(status), at).input == m.input,
        m.after_usb(Ok(size), at).input == m.input,
        m.after_ble(Ok(status), at).last_error is Some,
        m.after_usb(Ok(size), at).last_error is Some,
{
}

/// Once the control channel of an Android phone stands, its session is controlled exactly where
/// its user wishes that and its picture is there.
pub proof fn channels_that_stand_are_used_where_wished(m: SessionModel, at: Seq<char>)
    requires
        m.screen is Some,
        !(m.state is ControlReady),
    ensures
        ({
            let n = m.after_channel_ready(at);
            &&& n.state is ControlReady <==> m.prefs.auto_control && m.state is MirroringConnected
            &&& n.state is ControlReady ==> n.input is Scrcpy
            &&& !(n.state is ControlReady) ==> n.state == m.state && n.input == m.input
        }),
{
}

/// That the controller advertises is told while the phone is waited for and is not there yet, and
/// not otherwise.
pub proof fn advertising_is_told_while_the_phone_is_waited_for(
    m: SessionModel,
    status: HidStatus<Seq<char>>,
    at: Seq<char>,
)
    requires
        status.last_error is None,
    ensures
        m.with_status_told(status, at).outbox.len() > m.outbox.len() + 1 <==> status.advertising
            && !status.connected && m.state is ControlPairing,
        m.with_status_told(status, at).state == m.state,
        m.with_status_told(status, at).error_log == m.error_log,
{
    reveal_strlit("info");
    reveal_strlit("error");
    assert("info"@.len() != "error"@.len());
}

} // verus!
