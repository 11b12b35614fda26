//! The controller of the Bluetooth input link.
//!
//! Everything above works with [`IHidController`]; how a platform sends a report is below it.
use vstd::prelude::*;

use crate::integrations::hid_report::{KeyboardReport, MouseReport};
use crate::integrations::{AdapterError, HostPlatform};
use crate::session::state::ControlState;
use crate::text;

verus! {

/// The phone has subscribed to the mouse report.
pub const INPUT_REPORT_MOUSE: u8 = 1;

/// The phone has subscribed to the keyboard report.
pub const INPUT_REPORT_KEYBOARD: u8 = 2;

/// The phone has subscribed to the boot mouse report.
pub const INPUT_REPORT_BOOT_MOUSE: u8 = 4;

/// The phone has subscribed to the boot keyboard report.
pub const INPUT_REPORT_BOOT_KEYBOARD: u8 = 8;

/// The state of the input link. The type of the texts is a parameter, so that contracts can
/// speak of `HidStatus<Seq<char>>`.
#[derive(Debug)]
pub struct HidStatus<T = String> {
    /// `ble`, `usb_wda` or `scrcpy`: which input semantics apply.
    pub control_transport: T,
    pub control: ControlState,
    /// Whether the Bluetooth controller of the host is on.
    pub powered_on: bool,
    /// Whether the service is published and the host has confirmed that it advertises.
    pub advertising: bool,
    pub paired: bool,
    pub connected: bool,
    pub subscribed: bool,
    /// Which input reports the phone has subscribed to.
    pub input_report_mask: u8,
    /// The name under which the phone lists this host.
    pub pairing_name: Option<T>,
    /// The name in the advertising packet.
    pub advertised_name: Option<T>,
    pub device_name: Option<T>,
    pub connection_interval_ms: Option<u32>,
    pub assistive_touch_hint: bool,
    /// The authorization code of the host's Bluetooth stack, where it has one.
    pub authorization: Option<i32>,
    pub last_error: Option<T>,
}

impl View for HidStatus<String> {
    type V = HidStatus<Seq<char>>;

    open spec fn view(&self) -> HidStatus<Seq<char>> {
        HidStatus {
            control_transport: self.control_transport@,
            control: self.control,
            powered_on: self.powered_on,
            advertising: self.advertising,
            paired: self.paired,
            connected: self.connected,
            subscribed: self.subscribed,
            input_report_mask: self.input_report_mask,
            pairing_name: text::opt_text(self.pairing_name),
            advertised_name: text::opt_text(self.advertised_name),
            device_name: text::opt_text(self.device_name),
            connection_interval_ms: self.connection_interval_ms,
            assistive_touch_hint: self.assistive_touch_hint,
            authorization: self.authorization,
            last_error: text::opt_text(self.last_error),
        }
    }
}

impl Clone for HidStatus<String> {
    fn clone(&self) -> (r: Self)
        ensures
            r@ == self@,
    {
        HidStatus {
            control_transport: text::own(self.control_transport.as_str()),
            control: self.control,
            powered_on: self.powered_on,
            advertising: self.advertising,
            paired: self.paired,
            connected: self.connected,
            subscribed: self.subscribed,
            input_report_mask: self.input_report_mask,
            pairing_name: text::own_opt(&self.pairing_name),
            advertised_name: text::own_opt(&self.advertised_name),
            device_name: text::own_opt(&self.device_name),
            connection_interval_ms: self.connection_interval_ms,
            assistive_touch_hint: self.assistive_touch_hint,
            authorization: self.authorization,
            last_error: text::own_opt(&self.last_error),
        }
    }
}

/// A link on which nothing has happened yet.
pub open spec fn no_link() -> HidStatus<Seq<char>> {
    HidStatus {
            control_transport: ""@,
            control: ControlState::Disabled,
            powered_on: false,
            advertising: false,
            paired: false,
            connected: false,
            subscribed: false,
            input_report_mask: 0,
            pairing_name: None,
            advertised_name: None,
            device_name: None,
            connection_interval_ms: None,
            assistive_touch_hint: false,
            authorization: None,
            last_error: None,
    }
}

impl Default for HidStatus<String> {
    fn default() -> (r: Self)
        ensures
            r@ == no_link(),
    {
        HidStatus {
            control_transport: text::own(""),
            control: ControlState::Disabled,
            powered_on: false,
            advertising: false,
            paired: false,
            connected: false,
            subscribed: false,
            input_report_mask: 0,
            pairing_name: None,
            advertised_name: None,
            device_name: None,
            connection_interval_ms: None,
            assistive_touch_hint: false,
            authorization: None,
            last_error: None,
        }
    }
}

/// What an authorization code of the Bluetooth stack means.
pub open spec fn authorization_text(code: i32) -> Seq<char> {
    if code == 0 {
        "未确定"@
    } else if code == 1 {
        "受限制"@
    } else if code == 2 {
        "已拒绝"@
    } else if code == 3 {
        "始终允许"@
    } else {
        "未知"@
    }
}

/// What an authorization code of the Bluetooth stack means.
pub fn authorization_name(code: i32) -> (r: &'static str)
    ensures
        r@ == authorization_text(code),
{
    match code {
        0 => "未确定",
        1 => "受限制",
        2 => "已拒绝",
        3 => "始终允许",
        _ => "未知",
    }
}

/// What a controller is given to send.
pub enum HidReport {
    Keyboard(KeyboardReport),
    Mouse(MouseReport),
    /// All keys and buttons are released.
    ReleaseAll,
}

/// A call of a controller: what it was given to send, and why that could not be sent; nothing
/// where it could.
pub struct HidCall {
    pub report: HidReport,
    pub failure: Option<AdapterError<Seq<char>>>,
}

/// Why a report could not be sent, by what the controller returned; nothing where it could.
pub open spec fn failure_of(r: Result<(), AdapterError>) -> Option<AdapterError<Seq<char>>> {
    match r {
        Ok(_) => None,
        Err(e) => Some(e@),
    }
}

/// All keys and buttons are released; whether that could be sent is not told.
pub open spec fn release_call() -> HidCall {
    HidCall { report: HidReport::ReleaseAll, failure: None }
}

/// A keyboard report, and what came of it.
pub open spec fn keyboard_call(
    report: KeyboardReport,
    failure: Option<AdapterError<Seq<char>>>,
) -> HidCall {
    HidCall { report: HidReport::Keyboard(report), failure }
}

/// A mouse report, and what came of it.
pub open spec fn mouse_call(
    report: MouseReport,
    failure: Option<AdapterError<Seq<char>>>,
) -> HidCall {
    HidCall { report: HidReport::Mouse(report), failure }
}

/// A controller of the input link.
pub trait IHidController {
    /// Everything that the controller has been given to send, in order, and what it returned.
    /// Only proofs speak of it.
    open spec fn given(&self) -> Seq<HidCall> {
        Seq::empty()
    }

    /// Makes this host discoverable; called only when the user enables control.
    fn start_advertising(&mut self) -> (r: Result<(), AdapterError>);

    fn stop_advertising(&mut self) -> (r: Result<(), AdapterError>);

    /// Releases all keys and buttons.
    fn release_all(&mut self)
        ensures
            final(self).given() == old(self).given().push(release_call()),
    ;

    fn send_keyboard(&mut self, report: &KeyboardReport) -> (r: Result<(), AdapterError>)
        ensures
            final(self).given() == old(self).given().push(
                keyboard_call(*report, failure_of(r)),
            ),
    ;

    fn send_mouse(&mut self, report: &MouseReport) -> (r: Result<(), AdapterError>)
        ensures
            final(self).given() == old(self).given().push(mouse_call(*report, failure_of(r))),
    ;

    fn status(&self) -> (r: HidStatus);

    fn set_control_state(&mut self, control: ControlState);

    fn set_device_info(
        &mut self,
        paired: bool,
        connected: bool,
        subscribed: bool,
        name: Option<String>,
    );
}

/// The ways in which input can go over Bluetooth.
#[derive(Debug, Clone, Copy, PartialEq, Eq, Structural)]
pub enum HidControllerKind {
    WinRt,
    MacOs,
    /// There is none: everything is refused.
    Stub,
}

/// Which controller a platform has.
pub open spec fn controller_on(platform: HostPlatform) -> HidControllerKind {
    match platform {
        HostPlatform::Windows => HidControllerKind::WinRt,
        HostPlatform::MacOs => HidControllerKind::MacOs,
        _ => HidControllerKind::Stub,
    }
}

/// Which controller a platform has.
pub fn create_hid_controller(platform: HostPlatform) -> (r: HidControllerKind)
    ensures
        r == controller_on(platform),
{
    match platform {
        HostPlatform::Windows => HidControllerKind::WinRt,
        HostPlatform::MacOs => HidControllerKind::MacOs,
        _ => HidControllerKind::Stub,
    }
}

/// What a platform says about Bluetooth input: whether it can act as a peripheral, the masked
/// address of the adapter, and a note. On Windows the adapter itself is asked, and `adapter`
/// is its answer.
pub fn probe_ble_capabilities(platform: HostPlatform, adapter: (bool, Option<String>)) -> (r: (
    bool,
    Option<String>,
    Option<String>,
))
    ensures
        match platform {
            HostPlatform::Windows => r == (adapter.0, adapter.1, None::<String>),
            HostPlatform::MacOs => r.0 && r.1 is None && text::opt_text(r.2) == Some(
                "macOS 使用 CoreBluetooth CBPeripheralManager 提供 HOGP；iPhone 系统蓝牙列表可能显示本机/GAP 名称而不是应用名，首次使用需在对应条目上完成配对，真实设备兼容性仍需验证"@,
            ),
            HostPlatform::Other => !r.0 && r.1 is None && text::opt_text(r.2) == Some(
                "当前构建平台不是 Windows/macOS；BLE LE Peripheral 能力需在目标宿主上验证"@,
            ),
        },
{
    match platform {
        HostPlatform::Windows => (adapter.0, adapter.1, None),
        HostPlatform::MacOs => (
            true,
            None,
            Some(
                text::own(
                    "macOS 使用 CoreBluetooth CBPeripheralManager 提供 HOGP；iPhone 系统蓝牙列表可能显示本机/GAP 名称而不是应用名，首次使用需在对应条目上完成配对，真实设备兼容性仍需验证",
                ),
            ),
        ),
        HostPlatform::Other => (
            false,
            None,
            Some(
                text::own(
                    "当前构建平台不是 Windows/macOS；BLE LE Peripheral 能力需在目标宿主上验证",
                ),
            ),
        ),
    }
}

/// An address of an adapter with everything masked but the six digits of its vendor.
pub open spec fn masked_address(address: u64) -> Seq<char> {
    text::hex(address as nat, 12, true).take(6) + "******"@
}

proof fn lemma_hex_length(n: nat, width: nat, capital: bool)
    ensures
        text::hex(n, width, capital).len() == width,
    decreases width,
{
    if width > 0 {
        lemma_hex_length(n / 16, (width - 1) as nat, capital);
    }
}

/// A masked address shows the vendor, which is the upper half of the address, and nothing of the
/// lower half.
pub proof fn masked_addresses_show_the_vendor(address: u64, other: u64)
    requires
        address < 0x1_0000_0000_0000,
    ensures
        masked_address(address).len() == 12,
        text::hex_value(masked_address(address).take(6)) == address / 0x100_0000,
        masked_address(address).skip(6) == "******"@,
        other / 0x100_0000 == address / 0x100_0000 ==> masked_address(other) == masked_address(
            address,
        ),
{
    reveal_strlit("******");
    lemma_hex_length(address as nat, 12, true);
    lemma_hex_length(other as nat, 12, true);
    lemma_hex_front(address as nat);
    lemma_hex_front(other as nat);
    let front = text::hex(address as nat, 12, true).take(6);
    assert(masked_address(address).take(6) =~= front);
    assert(masked_address(address).skip(6) =~= "******"@);
    reveal_with_fuel(vstd::arithmetic::power::pow, 7);
    text::hexadecimal_numbers_read_back(address as nat / 0x100_0000, 6, true);
}

proof fn lemma_hex_front(n: nat)
    ensures
        text::hex(n, 12, true).take(6) == text::hex(n / 0x100_0000, 6, true),
{
    reveal_with_fuel(text::hex, 7);
    lemma_hex_length(n / 0x100_0000, 6, true);
    assert(n / 16 / 16 / 16 / 16 / 16 / 16 == n / 0x100_0000);
    assert(text::hex(n, 12, true).take(6) =~= text::hex(n / 0x100_0000, 6, true));
}

/// Masks the address of an adapter, which has 48 bits, but for its vendor.
pub fn mask_adapter_address(address: u64) -> (r: String)
    requires
        address < 0x1_0000_0000_0000,
    ensures
        r@ == masked_address(address),
{
    proof {
        lemma_hex_length(address as nat, 12, true);
    }
    let digits = text::hex_text(address, 12, true);
    text::cat2(text::take_chars(digits.as_str(), 6).as_str(), "******")
}

// ---------------------------------------------------------------------------
// A host without Bluetooth input
// ---------------------------------------------------------------------------

/// The controller of a host that cannot send input: it says so whenever it is asked.
pub struct StubHidAdapter {
    pub platform: HostPlatform,
    pub link: HidStatus,
    pub log: Ghost<Seq<HidCall>>,
}

/// Why a host cannot send input.
pub open spec fn stub_reason(platform: HostPlatform) -> Seq<char> {
    if platform is MacOs {
        "macOS 宿主的 HOGP（CoreBluetooth CBPeripheralManager）已骨架化，需真实 iPhone + macOS 13+ 验证"@
    } else {
        "当前开发平台不支持 BLE LE Peripheral；请在 Windows 10 2004+ / macOS 13+ 目标上验证"@
    }
}

impl StubHidAdapter {
    pub fn new(platform: HostPlatform) -> (r: Self)
        ensures
            r.platform == platform,
            r.link@ == (HidStatus { control_transport: "ble"@, ..no_link() }),
            r.given() == Seq::<HidCall>::empty(),
    {
        let mut link = HidStatus::default();
        link.control_transport = text::own("ble");
        StubHidAdapter { platform, link, log: Ghost(Seq::empty()) }
    }
}

impl IHidController for StubHidAdapter {
    open spec fn given(&self) -> Seq<HidCall> {
        self.log@
    }

    fn start_advertising(&mut self) -> (r: Result<(), AdapterError>)
        ensures
            r matches Err(e) && e@ == AdapterError::PendingRealDeviceValidation(
                stub_reason(old(self).platform),
            ),
            final(self).link@ == (HidStatus {
                last_error: Some(stub_reason(old(self).platform)),
                ..old(self).link@
            }),
            final(self).given() == old(self).given(),
    {
        let why = match self.platform {
            HostPlatform::MacOs => "macOS 宿主的 HOGP（CoreBluetooth CBPeripheralManager）已骨架化，需真实 iPhone + macOS 13+ 验证",
            _ => "当前开发平台不支持 BLE LE Peripheral；请在 Windows 10 2004+ / macOS 13+ 目标上验证",
        };
        self.link.last_error = Some(text::own(why));
        Err(AdapterError::PendingRealDeviceValidation(text::own(why)))
    }

    fn stop_advertising(&mut self) -> (r: Result<(), AdapterError>)
        ensures
            r is Ok,
            *final(self) == *old(self),
    {
        Ok(())
    }

    fn release_all(&mut self)
        ensures
            final(self).link@ == (HidStatus {
                connected: false,
                subscribed: false,
                ..old(self).link@
            }),
    {
        self.link.connected = false;
        self.link.subscribed = false;
        self.log = Ghost(self.log@.push(release_call()));
    }

    fn send_keyboard(&mut self, report: &KeyboardReport) -> (r: Result<(), AdapterError>)
        ensures
            r matches Err(e) && e@ == AdapterError::ControlInactive("开发构建未激活 BLE 控制"@),
            final(self).link == old(self).link,
    {
        let r = Err(AdapterError::ControlInactive(text::own("开发构建未激活 BLE 控制")));
        self.log = Ghost(self.log@.push(keyboard_call(*report, failure_of(r))));
        r
    }

    fn send_mouse(&mut self, report: &MouseReport) -> (r: Result<(), AdapterError>)
        ensures
            r matches Err(e) && e@ == AdapterError::ControlInactive("开发构建未激活 BLE 控制"@),
            final(self).link == old(self).link,
    {
        let r = Err(AdapterError::ControlInactive(text::own("开发构建未激活 BLE 控制")));
        self.log = Ghost(self.log@.push(mouse_call(*report, failure_of(r))));
        r
    }

    fn status(&self) -> (r: HidStatus)
        ensures
            r@ == self.link@,
    {
        self.link.clone()
    }

    fn set_control_state(&mut self, control: ControlState)
        ensures
            final(self).link@ == (HidStatus { control, ..old(self).link@ }),
    {
        self.link.control = control;
    }

    fn set_device_info(
        &mut self,
        paired: bool,
        connected: bool,
        subscribed: bool,
        name: Option<String>,
    )
        ensures
            final(self).link@ == (HidStatus {
                paired,
                connected,
                subscribed,
                device_name: text::opt_text(name),
                ..old(self).link@
            }),
    {
        self.link.paired = paired;
        self.link.connected = connected;
        self.link.subscribed = subscribed;
        self.link.device_name = name;
    }
}

// ---------------------------------------------------------------------------
// Windows
// ---------------------------------------------------------------------------

/// The controller on Windows. Its reports are not written to the radio yet, and it says so.
pub struct WinRtHidAdapter {
    /// Whether the adapter can act as a peripheral, as it last said.
    pub peripheral_supported: bool,
    /// The masked address of the adapter.
    pub address: Option<String>,
    pub link: HidStatus,
    pub log: Ghost<Seq<HidCall>>,
}

impl WinRtHidAdapter {
    pub fn new() -> (r: Self)
        ensures
            !r.peripheral_supported,
            r.address is None,
            r.link@ == (HidStatus { control_transport: "ble"@, ..no_link() }),
            r.given() == Seq::<HidCall>::empty(),
    {
        let mut link = HidStatus::default();
        link.control_transport = text::own("ble");
        WinRtHidAdapter {
            peripheral_supported: false,
            address: None,
            link,
            log: Ghost(Seq::empty()),
        }
    }

    /// Notes what the adapter answered when it was asked.
    pub fn set_peripheral(&mut self, supported: bool, address: Option<String>)
        ensures
            final(self).peripheral_supported == supported,
            final(self).address == address,
            final(self).link == old(self).link,
            final(self).given() == old(self).given(),
    {
        self.peripheral_supported = supported;
        self.address = address;
    }
}

/// The name under which the Windows host announces itself.
pub open spec fn windows_device_name(address: Option<Seq<char>>) -> Seq<char> {
    crate::APP_NAME@ + " 输入 ("@ + (match address {
        Some(a) => a,
        None => "00:xx:xx"@,
    }) + ")"@
}

impl IHidController for WinRtHidAdapter {
    open spec fn given(&self) -> Seq<HidCall> {
        self.log@
    }

    fn start_advertising(&mut self) -> (r: Result<(), AdapterError>)
        ensures
            !old(self).peripheral_supported ==> (r matches Err(e) && e@
                == AdapterError::<Seq<char>>::PeripheralUnsupported) && *final(self)
                == *old(self),
            old(self).peripheral_supported ==> (r matches Err(e) && e@
                == AdapterError::PendingRealDeviceValidation(
                "WinRT GattServiceProvider HOGP 广播已骨架化，需在 Windows + 支持 Peripheral 的适配器 + 真实 iPhone 上完成配对验证"@,
            )) && final(self).link@ == (HidStatus {
                control: ControlState::Broadcasting,
                connected: false,
                subscribed: false,
                device_name: Some(windows_device_name(text::opt_text(old(self).address))),
                ..old(self).link@
            }),
    {
        if !self.peripheral_supported {
            return Err(AdapterError::PeripheralUnsupported);
        }
        let address = match &self.address {
            Some(a) => text::own(a.as_str()),
            None => text::own("00:xx:xx"),
        };
        self.link.control = ControlState::Broadcasting;
        self.link.connected = false;
        self.link.subscribed = false;
        self.link.device_name = Some(
            text::cat4(crate::APP_NAME, " 输入 (", address.as_str(), ")"),
        );
        Err(
            AdapterError::PendingRealDeviceValidation(
                text::own(
                    "WinRT GattServiceProvider HOGP 广播已骨架化，需在 Windows + 支持 Peripheral 的适配器 + 真实 iPhone 上完成配对验证",
                ),
            ),
        )
    }

    fn stop_advertising(&mut self) -> (r: Result<(), AdapterError>)
        ensures
            r is Ok,
            final(self).given() == old(self).given().push(release_call()),
            final(self).link@ == (HidStatus {
                control: ControlState::Disabled,
                ..old(self).link@
            }),
    {
        self.release_all();
        self.link.control = ControlState::Disabled;
        Ok(())
    }

    fn release_all(&mut self)
        ensures
            final(self).link == old(self).link,
            final(self).peripheral_supported == old(self).peripheral_supported,
            final(self).address == old(self).address,
    {
        self.log = Ghost(self.log@.push(release_call()));
    }

    fn send_keyboard(&mut self, report: &KeyboardReport) -> (r: Result<(), AdapterError>)
        ensures
            r matches Err(e) && e@ == (if old(self).link.control is Connected {
                AdapterError::PendingRealDeviceValidation(
                    "键盘报告写入需 GattServiceProvider Report 特征，随 HOGP 广播流程一并验证"@,
                )
            } else {
                AdapterError::ControlInactive("BLE 控制未连接"@)
            }),
            final(self).link == old(self).link,
    {
        let r = match self.link.control {
            ControlState::Connected => Err(
                AdapterError::PendingRealDeviceValidation(
                    text::own(
                        "键盘报告写入需 GattServiceProvider Report 特征，随 HOGP 广播流程一并验证",
                    ),
                ),
            ),
            _ => Err(AdapterError::ControlInactive(text::own("BLE 控制未连接"))),
        };
        self.log = Ghost(self.log@.push(keyboard_call(*report, failure_of(r))));
        r
    }

    fn send_mouse(&mut self, report: &MouseReport) -> (r: Result<(), AdapterError>)
        ensures
            r matches Err(e) && e@ == (if old(self).link.control is Connected {
                AdapterError::PendingRealDeviceValidation(
                    "鼠标报告写入需 GattServiceProvider Report 特征，随 HOGP 广播流程一并验证"@,
                )
            } else {
                AdapterError::ControlInactive("BLE 控制未连接"@)
            }),
            final(self).link == old(self).link,
    {
        let r = match self.link.control {
            ControlState::Connected => Err(
                AdapterError::PendingRealDeviceValidation(
                    text::own(
                        "鼠标报告写入需 GattServiceProvider Report 特征，随 HOGP 广播流程一并验证",
                    ),
                ),
            ),
            _ => Err(AdapterError::ControlInactive(text::own("BLE 控制未连接"))),
        };
        self.log = Ghost(self.log@.push(mouse_call(*report, failure_of(r))));
        r
    }

    fn status(&self) -> (r: HidStatus)
        ensures
            r@ == self.link@,
    {
        self.link.clone()
    }

    fn set_control_state(&mut self, control: ControlState)
        ensures
            final(self).link@ == (HidStatus { control, ..old(self).link@ }),
    {
        self.link.control = control;
    }

    fn set_device_info(
        &mut self,
        paired: bool,
        connected: bool,
        subscribed: bool,
        name: Option<String>,
    )
        ensures
            final(self).link@ == (HidStatus {
                paired,
                connected,
                subscribed,
                device_name: text::opt_text(name),
                ..old(self).link@
            }),
    {
        self.link.paired = paired;
        self.link.connected = connected;
        self.link.subscribed = subscribed;
        self.link.device_name = name;
    }
}

/// A platform has the controller that is made for it, and one that has none is told apart.
pub proof fn platforms_have_their_controller(platform: HostPlatform)
    ensures
        controller_on(platform) is WinRt <==> platform is Windows,
        controller_on(platform) is MacOs <==> platform is MacOs,
        controller_on(platform) is Stub <==> platform is Other,
{
}

/// The codes of an authorization are told apart: only one of them means that it is granted.
pub proof fn authorizations_are_told_apart(code: i32)
    ensures
        authorization_text(code) == "未确定"@ <==> code == 0,
        authorization_text(code) == "受限制"@ <==> code == 1,
        authorization_text(code) == "已拒绝"@ <==> code == 2,
        authorization_text(code) == "始终允许"@ <==> code == 3,
        authorization_text(code) == "未知"@ <==> code < 0 || code > 3,
{
    reveal_strlit("未确定");
    reveal_strlit("受限制");
    reveal_strlit("已拒绝");
    reveal_strlit("始终允许");
    reveal_strlit("未知");
    assert("未确定"@.len() == 3 && "受限制"@.len() == 3 && "已拒绝"@.len() == 3
        && "始终允许"@.len() == 4 && "未知"@.len() == 2);
    assert("未确定"@[0] != "受限制"@[0] && "未确定"@[0] != "已拒绝"@[0] && "受限制"@[0]
        != "已拒绝"@[0]);
}

} // verus!
