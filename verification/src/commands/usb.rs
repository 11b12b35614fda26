//! The phones that are connected over USB, and getting an iPhone ready for control.
use vstd::prelude::*;

use crate::commands::CommandErrorPayload;
use crate::integrations::usb_devices;
use crate::integrations::usb_devices::{UsbDevice, UsbDeviceKind};
use crate::text;

verus! {

/// The phones that are connected over USB, and what went wrong while they were looked for.
#[derive(Debug)]
pub struct UsbDevicesReport {
    pub devices: Vec<UsbDeviceView>,
    pub error_per_source: Vec<String>,
}

/// A phone as it is shown. The type of the texts is a parameter, so that contracts can speak of
/// `UsbDeviceView<Seq<char>>`.
#[derive(Debug)]
pub struct UsbDeviceView<T = String> {
    /// `iphone` or `android`.
    pub kind: T,
    pub name: T,
    pub id_masked: T,
    pub state: T,
    pub authorized: bool,
}

impl View for UsbDeviceView<String> {
    type V = UsbDeviceView<Seq<char>>;

    open spec fn view(&self) -> UsbDeviceView<Seq<char>> {
        UsbDeviceView {
            kind: self.kind@,
            name: self.name@,
            id_masked: self.id_masked@,
            state: self.state@,
            authorized: self.authorized,
        }
    }
}

/// The contents of a list of phones.
pub open spec fn shown_views(v: Seq<UsbDeviceView>) -> Seq<UsbDeviceView<Seq<char>>> {
    Seq::new(v.len(), |i: int| v[i]@)
}

/// A phone as it is shown. Which state says that it is authorized depends on its kind.
pub open spec fn shown_as(d: UsbDevice<Seq<char>>) -> UsbDeviceView<Seq<char>> {
    UsbDeviceView {
        kind: match d.kind {
            UsbDeviceKind::Iphone => "iphone"@,
            UsbDeviceKind::Android => "android"@,
        },
        name: d.name,
        id_masked: d.id_masked,
        state: d.state,
        authorized: d.state == (match d.kind {
            UsbDeviceKind::Iphone => "connected"@,
            UsbDeviceKind::Android => "device"@,
        }),
    }
}

/// A phone as it is shown.
pub fn to_view(d: &UsbDevice) -> (r: UsbDeviceView)
    ensures
        r@ == shown_as(d@),
{
    let (kind, ready) = match d.kind {
        UsbDeviceKind::Iphone => ("iphone", "connected"),
        UsbDeviceKind::Android => ("android", "device"),
    };
    UsbDeviceView {
        kind: text::own(kind),
        name: text::own(d.name.as_str()),
        id_masked: text::own(d.id_masked.as_str()),
        state: text::own(d.state.as_str()),
        authorized: text::same(d.state.as_str(), ready),
    }
}

/// The phones that were found, as they are shown, and what went wrong.
pub fn list_usb_devices_cmd(devices: &Vec<UsbDevice>, notes: Vec<String>) -> (r: UsbDevicesReport)
    ensures
        shown_views(r.devices@) == usb_devices::views(devices@).map_values(
            |d: UsbDevice<Seq<char>>| shown_as(d),
        ),
        r.error_per_source == notes,
{
    let mut views: Vec<UsbDeviceView> = Vec::new();
    let mut i: usize = 0;
    while i < devices.len()
        invariant
            i <= devices@.len(),
            views@.len() == i,
            forall|j: int| 0 <= j < i ==> #[trigger] views@[j]@ == shown_as(devices@[j]@),
        decreases devices@.len() - i,
    {
        views.push(to_view(&devices[i]));
        i = i + 1;
    }
    assert(shown_views(views@) =~= usb_devices::views(devices@).map_values(
        |d: UsbDevice<Seq<char>>| shown_as(d),
    ));
    UsbDevicesReport { devices: views, error_per_source: notes }
}

/// The answer where the directory for the data of the program is not known.
pub fn data_dir_unknown(error: &str) -> (r: CommandErrorPayload)
    ensures
        r@ == (CommandErrorPayload {
            code: "app_data_dir"@,
            message: "无法定位应用数据目录："@ + error@,
        }),
{
    CommandErrorPayload::new("app_data_dir", text::cat2("无法定位应用数据目录：", error).as_str())
}

/// The answer where looking at an iPhone, or getting it ready, broke off.
pub fn setup_broke_off(preparing: bool, error: &str) -> (r: CommandErrorPayload)
    ensures
        r@ == (CommandErrorPayload {
            code: if preparing {
                "ios_wda_prepare"@
            } else {
                "ios_wda_inspect"@
            },
            message: error@,
        }),
{
    CommandErrorPayload::new(
        if preparing {
            "ios_wda_prepare"
        } else {
            "ios_wda_inspect"
        },
        error,
    )
}

/// A phone is shown as what it is; an iPhone is ready once it is connected, an Android phone once
/// its user allowed debugging.
pub proof fn phones_are_shown_as_they_are(d: UsbDevice<Seq<char>>)
    ensures
        shown_as(d).kind == "iphone"@ <==> d.kind is Iphone,
        shown_as(d).kind == "android"@ <==> d.kind is Android,
        shown_as(d).name == d.name && shown_as(d).id_masked == d.id_masked && shown_as(d).state
            == d.state,
        d.kind is Iphone ==> (shown_as(d).authorized <==> d.state == "connected"@),
        d.kind is Android ==> (shown_as(d).authorized <==> d.state == "device"@),
{
    reveal_strlit("iphone");
    reveal_strlit("android");
    assert("iphone"@.len() != "android"@.len());
}

} // verus!
