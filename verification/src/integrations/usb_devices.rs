//! Phones on USB: what the discovery tools print, read into one list of devices.
//!
//! A serial number or UDID is shown masked; the raw identifier stays inside the program.
use vstd::prelude::*;

use crate::integrations;
use crate::integrations::adb;
use crate::integrations::adb::ToolCandidate;
use crate::integrations::{digest, report_run_failure, AdapterError, HostPlatform, ToolRun};
use crate::json;
use crate::json::{Json, JsonValue};
use crate::seqs;
use crate::text;

verus! {

/// What kind of phone a device is.
#[derive(Debug, Clone, Copy, PartialEq, Eq, Structural)]
pub enum UsbDeviceKind {
    Iphone,
    Android,
}

/// A phone on USB. The type of the texts is a parameter, so that contracts can speak of
/// `UsbDevice<Seq<char>>`.
#[derive(Debug, PartialEq, Eq)]
pub struct UsbDevice<T = String> {
    pub kind: UsbDeviceKind,
    /// The name to show.
    pub name: T,
    /// The masked identifier.
    pub id_masked: T,
    /// The raw identifier, for use inside the program only.
    pub raw_id: T,
    /// `connected`, `unauthorized`, or what the tool printed.
    pub state: T,
}

impl View for UsbDevice<String> {
    type V = UsbDevice<Seq<char>>;

    open spec fn view(&self) -> UsbDevice<Seq<char>> {
        UsbDevice {
            kind: self.kind,
            name: self.name@,
            id_masked: self.id_masked@,
            raw_id: self.raw_id@,
            state: self.state@,
        }
    }
}

impl Clone for UsbDevice<String> {
    fn clone(&self) -> (r: Self)
        ensures
            r@ == self@,
    {
        UsbDevice {
            kind: self.kind,
            name: text::own(self.name.as_str()),
            id_masked: text::own(self.id_masked.as_str()),
            raw_id: text::own(self.raw_id.as_str()),
            state: text::own(self.state.as_str()),
        }
    }
}

/// The contents of a list of devices.
pub open spec fn views(v: Seq<UsbDevice>) -> Seq<UsbDevice<Seq<char>>> {
    Seq::new(v.len(), |i: int| v[i]@)
}

// ---------------------------------------------------------------------------
// Masking
// ---------------------------------------------------------------------------

/// An identifier with everything but its last four bytes masked; a short one is masked whole.
/// A character that lies only in part in the last four bytes is masked too.
pub open spec fn masked(id: Seq<char>) -> Seq<char> {
    if text::byte_length(id) <= 4 {
        "****"@
    } else {
        "***"@ + text::last_bytes(id, 4)
    }
}

/// Masks an identifier but for its last four bytes.
pub fn mask_id(id: &str) -> (r: String)
    ensures
        r@ == masked(id@),
{
    if text::byte_len(id) <= 4 {
        return text::own("****");
    }
    text::cat2("***", text::take_last_bytes(id, 4).as_str())
}

/// Of an identifier a mask shows at most four bytes, all of them at its end.
pub proof fn mask_shows_at_most_four_bytes(id: Seq<char>)
    ensures
        masked(id) == "****"@ || exists|k: int|
            0 < k <= id.len() && masked(id) == "***"@ + #[trigger] id.skip(k) && text::byte_length(
                id.skip(k),
            ) <= 4,
{
    text::lemma_cuts_within(id, 4);
    if text::byte_length(id) > 4 {
        let k = choose|k: int|
            0 <= k <= id.len() && text::last_bytes(id, 4) == #[trigger] id.skip(k);
        if k == 0 {
            assert(id.skip(0) =~= id);
        }
    }
}

// ---------------------------------------------------------------------------
// Android: `adb devices`
// ---------------------------------------------------------------------------

/// The serial number and the state on a line of `adb devices`.
pub open spec fn adb_row(line: Seq<char>) -> Option<(Seq<char>, Seq<char>)> {
    let t = text::trimmed(line);
    let w = text::words_of(t);
    if t.len() == 0 || text::stands_at(t, "List of"@, 0) || w.len() < 2 {
        None
    } else {
        Some((w[0], w[1]))
    }
}

/// The lines below the heading.
pub open spec fn table_lines(output: Seq<char>) -> Seq<Seq<char>> {
    let all = text::lines_of(output);
    if all.len() == 0 {
        all
    } else {
        all.skip(1)
    }
}

/// The rows of the table that `adb devices` prints.
pub open spec fn adb_rows(output: Seq<char>) -> Seq<(Seq<char>, Seq<char>)> {
    seqs::collect(table_lines(output), |l: Seq<char>| adb_row(l))
}

/// The contents of a list of pairs.
pub open spec fn pairs(v: Seq<(String, String)>) -> Seq<(Seq<char>, Seq<char>)> {
    Seq::new(v.len(), |i: int| (v[i].0@, v[i].1@))
}

/// The lines below the heading.
pub(crate) fn lines_below_heading(output: &str) -> (r: Vec<String>)
    ensures
        text::texts(r@) == table_lines(output@),
{
    let mut all = text::lines(output);
    if all.len() == 0 {
        return all;
    }
    let ghost before = all@;
    all.remove(0);
    assert(text::texts(all@) =~= text::texts(before).skip(1));
    all
}

/// Reads the table that `adb devices` prints into pairs of serial number and state.
pub fn parse_adb_raw(output: &str) -> (r: Vec<(String, String)>)
    ensures
        pairs(r@) == adb_rows(output@),
{
    let lines = lines_below_heading(output);
    let ghost f = |l: Seq<char>| adb_row(l);
    let ghost all = table_lines(output@);
    let mut out: Vec<(String, String)> = Vec::new();
    let mut i: usize = 0;
    proof {
        seqs::lemma_collect_ends(all, f);
        assert(pairs(out@) =~= Seq::<(Seq<char>, Seq<char>)>::empty());
    }
    while i < lines.len()
        invariant
            i <= lines@.len(),
            text::texts(lines@) == all,
            f == (|l: Seq<char>| adb_row(l)),
            pairs(out@) == seqs::collect(all.take(i as int), f),
        decreases lines@.len() - i,
    {
        proof {
            seqs::lemma_collect_step(all, f, i as int);
            assert(all[i as int] == lines@[i as int]@);
        }
        let t = text::trim(lines[i].as_str());
        let ghost before = out@;
        if !t.as_str().is_empty() && !text::starts_with(t.as_str(), "List of") {
            let w = text::words(t.as_str());
            if w.len() >= 2 {
                let serial = text::own(w[0].as_str());
                let state = text::own(w[1].as_str());
                proof {
                    assert(text::texts(w@)[0] == w@[0]@);
                    assert(text::texts(w@)[1] == w@[1]@);
                }
                out.push((serial, state));
                assert(pairs(out@) =~= pairs(before).push((serial@, state@)));
            }
        }
        i = i + 1;
    }
    proof {
        seqs::lemma_collect_ends(all, f);
    }
    out
}

/// The first word at or after `from` that begins with `model:`, without that beginning.
pub open spec fn model_word(words: Seq<Seq<char>>, from: int) -> Option<Seq<char>>
    decreases words.len() - from,
{
    if from >= words.len() {
        None
    } else {
        match text::behind(words[from], "model:"@) {
            Some(m) => Some(m),
            None => model_word(words, from + 1),
        }
    }
}

/// The model on a line of `adb devices -l` that belongs to `serial`.
pub open spec fn model_on_line(line: Seq<char>, serial: Seq<char>) -> Option<Seq<char>> {
    let w = text::words_of(text::trimmed(line));
    if w.len() == 0 || w[0] != serial {
        None
    } else {
        model_word(w, 1)
    }
}

/// The first model that the lines from `from` on give for `serial`.
pub open spec fn model_from(lines: Seq<Seq<char>>, serial: Seq<char>, from: int) -> Option<Seq<char>>
    decreases lines.len() - from,
{
    if from >= lines.len() {
        None
    } else {
        match model_on_line(lines[from], serial) {
            Some(m) => Some(m),
            None => model_from(lines, serial, from + 1),
        }
    }
}

/// The first model that `adb devices -l` gives for `serial`.
pub open spec fn vendor_of(output: Seq<char>, serial: Seq<char>) -> Option<Seq<char>> {
    model_from(table_lines(output), serial, 0)
}

fn model_in_words(w: &Vec<String>) -> (r: Option<String>)
    ensures
        text::opt_text(r) == model_word(text::texts(w@), 1),
{
    let mut j: usize = 1;
    while j < w.len()
        invariant
            1 <= j,
            j <= w@.len() || j == 1,
            model_word(text::texts(w@), 1) == model_word(text::texts(w@), j as int),
        decreases w@.len() - j,
    {
        let m = text::strip_prefix(w[j].as_str(), "model:");
        assert(text::texts(w@)[j as int] == w@[j as int]@);
        if m.is_some() {
            return m;
        }
        j = j + 1;
    }
    None
}

/// The model that `adb devices -l` prints for a serial number.
pub fn adb_vendor(output: &str, serial: &str) -> (r: Option<String>)
    ensures
        text::opt_text(r) == vendor_of(output@, serial@),
{
    let lines = lines_below_heading(output);
    let ghost all = table_lines(output@);
    let mut i: usize = 0;
    while i < lines.len()
        invariant
            i <= lines@.len(),
            text::texts(lines@) == all,
            all == table_lines(output@),
            model_from(all, serial@, i as int) == vendor_of(output@, serial@),
        decreases lines@.len() - i,
    {
        assert(all[i as int] == lines@[i as int]@);
        let t = text::trim(lines[i].as_str());
        let w = text::words(t.as_str());
        if w.len() > 0 {
            assert(text::texts(w@)[0] == w@[0]@);
            if text::same(w[0].as_str(), serial) {
                let m = model_in_words(&w);
                if m.is_some() {
                    return m;
                }
            }
        }
        i = i + 1;
    }
    None
}

/// The device of one row of `adb devices`, named by its model where `detail` gives one.
pub open spec fn android_device(
    row: (Seq<char>, Seq<char>),
    detail: Seq<char>,
) -> UsbDevice<Seq<char>> {
    UsbDevice {
        kind: UsbDeviceKind::Android,
        name: match vendor_of(detail, row.0) {
            Some(m) => m,
            None => "Android 设备"@,
        },
        id_masked: masked(row.0),
        raw_id: row.0,
        state: row.1,
    }
}

/// The contents of the answer of a source.
pub open spec fn listing(r: Result<Vec<UsbDevice>, AdapterError>) -> Result<
    Seq<UsbDevice<Seq<char>>>,
    AdapterError<Seq<char>>,
> {
    match r {
        Ok(v) => Ok(views(v@)),
        Err(e) => Err(e@),
    }
}

/// The Android devices of a run of `adb devices`.
pub open spec fn android_listing(run: ToolRun<Seq<char>>, detail: Seq<char>) -> Result<
    Seq<UsbDevice<Seq<char>>>,
    AdapterError<Seq<char>>,
> {
    if run.success {
        let rows = adb_rows(run.stdout);
        Ok(Seq::new(rows.len(), |i: int| android_device(rows[i], detail)))
    } else {
        Err(
            integrations::run_failure(
                "adb devices 返回 "@,
                run.status,
                ""@,
                integrations::digest_of(run.stderr),
            ),
        )
    }
}

/// Reads the Android devices out of a run of `adb devices` and the text that
/// `adb devices -l` printed.
pub fn android_devices(basic: &ToolRun, detail: &str) -> (r: Result<Vec<UsbDevice>, AdapterError>)
    ensures
        listing(r) == android_listing(basic@, detail@),
{
    if !basic.success {
        let d = digest(basic.stderr.as_str());
        return Err(
            report_run_failure("adb devices 返回 ", basic.status.as_str(), "", d.as_str()),
        );
    }
    let rows = parse_adb_raw(basic.stdout.as_str());
    let ghost all = adb_rows(basic@.stdout);
    let mut out: Vec<UsbDevice> = Vec::new();
    let mut i: usize = 0;
    while i < rows.len()
        invariant
            i <= rows@.len(),
            pairs(rows@) == all,
            views(out@) =~= Seq::new(i as nat, |j: int| android_device(all[j], detail@)),
        decreases rows@.len() - i,
    {
        let serial = text::own(rows[i].0.as_str());
        let state = text::own(rows[i].1.as_str());
        assert(all[i as int] == (serial@, state@));
        let name = match adb_vendor(detail, serial.as_str()) {
            Some(m) => m,
            None => text::own("Android 设备"),
        };
        let device = UsbDevice {
            kind: UsbDeviceKind::Android,
            name,
            id_masked: mask_id(serial.as_str()),
            raw_id: serial,
            state,
        };
        let ghost before = out@;
        assert(device@ == android_device(all[i as int], detail@));
        out.push(device);
        assert(views(out@) =~= views(before).push(device@));
        i = i + 1;
    }
    Ok(out)
}

/// The answer of a run of `adb devices` at the path `adb`, where there is such a file.
pub open spec fn android_answer(
    adb: Seq<char>,
    exists: bool,
    basic: Result<ToolRun<Seq<char>>, Seq<char>>,
    detail: Seq<char>,
) -> Result<Seq<UsbDevice<Seq<char>>>, AdapterError<Seq<char>>> {
    if !exists {
        Err(
            AdapterError::DependencyMissing(
                "未找到 adb（"@ + adb
                    + "）。请安装 Android SDK Platform-Tools 或设置 PHONEBRIDGE_ADB_PATH"@,
            ),
        )
    } else {
        match basic {
            Err(why) => Err(AdapterError::Failed("执行 adb devices 失败: "@ + why)),
            Ok(run) => android_listing(run, detail),
        }
    }
}

/// Lists the Android devices: `exists` says whether `adb` is there, `basic` is the run of
/// `adb devices` or why it could not be started, `detail` what `adb devices -l` printed.
pub fn list_android(
    adb: &str,
    exists: bool,
    basic: Result<ToolRun, String>,
    detail: &str,
) -> (r: Result<Vec<UsbDevice>, AdapterError>)
    ensures
        listing(r) == android_answer(adb@, exists, run_view(basic), detail@),
{
    if !exists {
        return Err(
            AdapterError::DependencyMissing(
                text::cat3(
                    "未找到 adb（",
                    adb,
                    "）。请安装 Android SDK Platform-Tools 或设置 PHONEBRIDGE_ADB_PATH",
                ),
            ),
        );
    }
    match basic {
        Err(why) => Err(
            AdapterError::Failed(text::cat2("执行 adb devices 失败: ", why.as_str())),
        ),
        Ok(run) => android_devices(&run, detail),
    }
}

// ---------------------------------------------------------------------------
// iPhone: `xcrun devicectl list devices`
// ---------------------------------------------------------------------------

/// What one entry of the device list of `devicectl` says. The fields from `reality` on are in
/// lower case; a field that is missing is empty.
pub struct DevicectlRecord<T = String> {
    pub name: T,
    pub model: T,
    pub id: T,
    pub reality: T,
    pub platform: T,
    pub device_type: T,
    pub transport: T,
    pub legacy_state: T,
    pub boot_state: T,
    pub pairing: T,
}

impl View for DevicectlRecord<String> {
    type V = DevicectlRecord<Seq<char>>;

    open spec fn view(&self) -> DevicectlRecord<Seq<char>> {
        DevicectlRecord {
            name: self.name@,
            model: self.model@,
            id: self.id@,
            reality: self.reality@,
            platform: self.platform@,
            device_type: self.device_type@,
            transport: self.transport@,
            legacy_state: self.legacy_state@,
            boot_state: self.boot_state@,
            pairing: self.pairing@,
        }
    }
}

/// The text of an optional member in lower case; empty where there is none.
pub open spec fn lower_text(v: Option<Json>) -> Seq<char> {
    text::unicode_lowercase(json::text_or(v, ""@))
}

/// The record of one entry. The current tool nests its fields in `deviceProperties`,
/// `hardwareProperties` and `connectionProperties`; the older one keeps them at the top.
/// A nested field is preferred wherever it is there, whatever its type.
pub open spec fn devicectl_record(d: Json) -> DevicectlRecord<Seq<char>> {
    let device = d.get("deviceProperties"@);
    let hardware = d.get("hardwareProperties"@);
    let connection = d.get("connectionProperties"@);
    let nested_transport = json::or_else(
        json::or_else(
            json::get_in(connection, "transportType"@),
            json::get_in(connection, "transport"@),
        ),
        json::get_in(connection, "interface"@),
    );
    DevicectlRecord {
        name: json::text_or(
            json::or_else(json::get_in(device, "name"@), d.get("name"@)),
            "iPhone"@,
        ),
        model: json::text_or(
            json::or_else(json::get_in(hardware, "marketingName"@), d.get("model"@)),
            ""@,
        ),
        id: json::text_or(
            json::or_else(json::get_in(hardware, "udid"@), d.get("identifier"@)),
            ""@,
        ),
        reality: lower_text(json::get_in(hardware, "reality"@)),
        platform: lower_text(json::get_in(hardware, "platform"@)),
        device_type: lower_text(json::get_in(hardware, "deviceType"@)),
        transport: lower_text(
            json::or_else(
                json::or_else(nested_transport, d.get("connectionType"@)),
                d.get("interface"@),
            ),
        ),
        legacy_state: lower_text(d.get("state"@)),
        boot_state: lower_text(json::get_in(device, "bootState"@)),
        pairing: lower_text(json::get_in(connection, "pairingState"@)),
    }
}

fn lower_of(v: Option<&JsonValue>) -> (r: String)
    ensures
        r@ == lower_text(json::opt_model(v)),
{
    text::to_lowercase(json::text_of_or(v, "").as_str())
}

/// Reads one entry of the device list of `devicectl`.
pub fn read_devicectl_record(d: &JsonValue) -> (r: DevicectlRecord)
    ensures
        r@ == devicectl_record(d@),
{
    let device = d.get("deviceProperties");
    let hardware = d.get("hardwareProperties");
    let connection = d.get("connectionProperties");
    let nested_transport = json::either(
        json::either(
            json::member(connection, "transportType"),
            json::member(connection, "transport"),
        ),
        json::member(connection, "interface"),
    );
    let transport = json::either(
        json::either(nested_transport, d.get("connectionType")),
        d.get("interface"),
    );
    DevicectlRecord {
        name: json::text_of_or(
            json::either(json::member(device, "name"), d.get("name")),
            "iPhone",
        ),
        model: json::text_of_or(
            json::either(json::member(hardware, "marketingName"), d.get("model")),
            "",
        ),
        id: json::text_of_or(
            json::either(json::member(hardware, "udid"), d.get("identifier")),
            "",
        ),
        reality: lower_of(json::member(hardware, "reality")),
        platform: lower_of(json::member(hardware, "platform")),
        device_type: lower_of(json::member(hardware, "deviceType")),
        transport: lower_of(transport),
        legacy_state: lower_of(d.get("state")),
        boot_state: lower_of(json::member(device, "bootState")),
        pairing: lower_of(json::member(connection, "pairingState")),
    }
}

impl DevicectlRecord<Seq<char>> {
    /// A simulated device.
    pub open spec fn simulated(self) -> bool {
        self.reality == "simulator"@ || self.reality == "virtual"@
    }

    /// A device that says of itself that it is neither an iPhone nor an iPad.
    pub open spec fn of_another_kind(self) -> bool {
        ||| self.platform.len() > 0 && !text::occurs(self.platform, "ios"@) && !text::occurs(
            self.platform,
            "iphone"@,
        ) && !text::occurs(self.platform, "ipad"@)
        ||| self.device_type.len() > 0 && !text::occurs(self.device_type, "iphone"@)
            && !text::occurs(self.device_type, "ipad"@)
    }

    /// A device that says of itself that it is away.
    pub open spec fn unavailable(self) -> bool {
        ||| text::occurs(self.legacy_state, "unavailable"@)
        ||| text::occurs(self.legacy_state, "offline"@)
        ||| text::occurs(self.legacy_state, "disconnected"@)
    }

    /// A device on a cable; one that names no transport counts when it is connected or booted.
    pub open spec fn on_usb(self) -> bool {
        ||| text::occurs(self.transport, "wired"@)
        ||| text::occurs(self.transport, "usb"@)
        ||| text::occurs(self.transport, "cable"@)
        ||| self.transport.len() == 0 && (self.legacy_state == "connected"@ || self.boot_state
            == "booted"@)
    }

    /// Whether the entry is an iPhone or iPad on USB that is there.
    pub open spec fn listed(self) -> bool {
        &&& self.id.len() > 0
        &&& !self.simulated()
        &&& !self.of_another_kind()
        &&& !self.unavailable()
        &&& self.on_usb()
    }

    /// The state that the device is listed with.
    pub open spec fn shown_state(self) -> Seq<char> {
        if self.pairing == "paired"@ || self.legacy_state == "connected"@ {
            "connected"@
        } else if self.pairing.len() > 0 {
            "unauthorized"@
        } else if self.legacy_state.len() > 0 {
            self.legacy_state
        } else {
            "connected"@
        }
    }

    /// The device that the entry is listed as, if it is listed.
    pub open spec fn device(self) -> Option<UsbDevice<Seq<char>>> {
        if self.listed() {
            Some(
                UsbDevice {
                    kind: UsbDeviceKind::Iphone,
                    name: if self.model.len() > 0 {
                        self.name + " · "@ + self.model
                    } else {
                        self.name
                    },
                    id_masked: masked(self.id),
                    raw_id: self.id,
                    state: self.shown_state(),
                },
            )
        } else {
            None
        }
    }
}

/// The contents of an optional device.
pub open spec fn opt_view(v: Option<UsbDevice>) -> Option<UsbDevice<Seq<char>>> {
    match v {
        Some(d) => Some(d@),
        None => None,
    }
}

/// The device that an entry of `devicectl` is listed as: an iPhone or iPad on a cable that is
/// there. One that is not paired yet is kept as `unauthorized`, so that the user can be asked
/// to trust this computer.
pub fn devicectl_device(record: &DevicectlRecord) -> (r: Option<UsbDevice>)
    ensures
        opt_view(r) == record@.device(),
{
    if record.id.as_str().is_empty() {
        return None;
    }
    if text::same(record.reality.as_str(), "simulator") || text::same(
        record.reality.as_str(),
        "virtual",
    ) {
        return None;
    }
    let platform = record.platform.as_str();
    let device_type = record.device_type.as_str();
    if (!platform.is_empty() && !text::contains(platform, "ios") && !text::contains(
        platform,
        "iphone",
    ) && !text::contains(platform, "ipad")) || (!device_type.is_empty() && !text::contains(
        device_type,
        "iphone",
    ) && !text::contains(device_type, "ipad")) {
        return None;
    }
    let transport = record.transport.as_str();
    let legacy_state = record.legacy_state.as_str();
    let is_unavailable = text::contains(legacy_state, "unavailable") || text::contains(
        legacy_state,
        "offline",
    ) || text::contains(legacy_state, "disconnected");
    let connected = text::same(legacy_state, "connected");
    let booted = text::same(record.boot_state.as_str(), "booted");
    let is_usb = text::contains(transport, "wired") || text::contains(transport, "usb")
        || text::contains(transport, "cable") || (transport.is_empty() && (connected || booted));
    if is_unavailable || !is_usb {
        return None;
    }
    let pairing = record.pairing.as_str();
    let state = if text::same(pairing, "paired") || connected {
        text::own("connected")
    } else if !pairing.is_empty() {
        text::own("unauthorized")
    } else if !legacy_state.is_empty() {
        text::own(legacy_state)
    } else {
        text::own("connected")
    };
    let name = if !record.model.as_str().is_empty() {
        text::cat3(record.name.as_str(), " · ", record.model.as_str())
    } else {
        text::own(record.name.as_str())
    };
    Some(
        UsbDevice {
            kind: UsbDeviceKind::Iphone,
            name,
            id_masked: mask_id(record.id.as_str()),
            raw_id: text::own(record.id.as_str()),
            state,
        },
    )
}

/// The devices of a document of `devicectl`.
pub open spec fn devicectl_listing(v: Json) -> Seq<UsbDevice<Seq<char>>> {
    match json::get_in(v.get("result"@), "devices"@) {
        Some(Json::Array(a)) => seqs::collect(a, |d: Json| devicectl_record(d).device()),
        _ => Seq::empty(),
    }
}

/// The devices of a document of `devicectl`.
pub fn devicectl_devices(v: &JsonValue) -> (r: Vec<UsbDevice>)
    ensures
        views(r@) == devicectl_listing(v@),
{
    let mut out: Vec<UsbDevice> = Vec::new();
    assert(views(out@) =~= Seq::<UsbDevice<Seq<char>>>::empty());
    match json::member(v.get("result"), "devices") {
        Some(JsonValue::Array(a)) => {
            let ghost f = |d: Json| devicectl_record(d).device();
            let ghost all = json::model(JsonValue::Array(*a))->Array_0;
            proof {
                seqs::lemma_collect_ends(all, f);
            }
            let mut i: usize = 0;
            while i < a.len()
                invariant
                    i <= a@.len(),
                    all == json::model(JsonValue::Array(*a))->Array_0,
                    all.len() == a@.len(),
                    f == (|d: Json| devicectl_record(d).device()),
                    views(out@) == seqs::collect(all.take(i as int), f),
                decreases a@.len() - i,
            {
                proof {
                    seqs::lemma_collect_step(all, f, i as int);
                }
                let record = read_devicectl_record(&a[i]);
                let ghost before = out@;
                match devicectl_device(&record) {
                    Some(d) => {
                        out.push(d);
                        assert(views(out@) =~= views(before).push(d@));
                    },
                    None => {},
                }
                i = i + 1;
            }
            proof {
                seqs::lemma_collect_ends(all, f);
            }
            out
        },
        _ => out,
    }
}

/// Reads the document that `devicectl` writes; a text that is no JSON lists nothing.
pub fn parse_devicectl_json(raw: &str) -> (r: Vec<UsbDevice>)
    ensures
        views(r@) == (match json::json_of_text(raw@) {
            Some(v) => devicectl_listing(v),
            None => Seq::empty(),
        }),
{
    match json::parse_json(raw) {
        Some(v) => devicectl_devices(&v),
        None => {
            let out: Vec<UsbDevice> = Vec::new();
            assert(views(out@) =~= Seq::<UsbDevice<Seq<char>>>::empty());
            out
        },
    }
}

/// The answer of a run of `devicectl`, whose document is `document` where it could be read.
pub open spec fn devicectl_answer(
    platform: HostPlatform,
    run: Result<ToolRun<Seq<char>>, Seq<char>>,
    document: Result<Seq<char>, Seq<char>>,
) -> Result<Seq<UsbDevice<Seq<char>>>, AdapterError<Seq<char>>> {
    if !(platform is MacOs) {
        Err(
            AdapterError::UnsupportedPlatform(
                "xcrun devicectl 仅 macOS 可用；Windows 上 iOS USB 识别待接入相应工具"@,
            ),
        )
    } else {
        match run {
            Err(why) => Err(AdapterError::Failed("执行 xcrun devicectl 失败: "@ + why)),
            Ok(run) => if !run.success {
                Err(
                    AdapterError::Failed(
                        "xcrun devicectl 失败（"@ + run.status + "）："@ + text::trimmed(run.stderr),
                    ),
                )
            } else {
                match document {
                    Err(why) => Err(
                        AdapterError::Failed("读取 devicectl JSON 结果失败："@ + why),
                    ),
                    Ok(raw) => match json::json_of_text(raw) {
                        Some(v) => Ok(devicectl_listing(v)),
                        None => Ok(Seq::empty()),
                    },
                }
            },
        }
    }
}

/// The contents of the outcome of starting a tool.
pub open spec fn run_view(run: Result<ToolRun, String>) -> Result<ToolRun<Seq<char>>, Seq<char>> {
    match run {
        Ok(run) => Ok(run@),
        Err(why) => Err(why@),
    }
}

/// The contents of the outcome of reading a file.
pub open spec fn read_view(read: Result<String, String>) -> Result<Seq<char>, Seq<char>> {
    match read {
        Ok(s) => Ok(s@),
        Err(why) => Err(why@),
    }
}

/// The arguments with which `xcrun` lists the devices into the file at `path`.
pub fn devicectl_arguments(path: &str) -> (r: Vec<String>)
    ensures
        text::texts(r@) == seq![
            "devicectl"@,
            "list"@,
            "devices"@,
            "--quiet"@,
            "--timeout"@,
            "5"@,
            "--json-output"@,
            path@,
        ],
{
    text::own_all(
        &["devicectl", "list", "devices", "--quiet", "--timeout", "5", "--json-output", path],
    )
}

/// Lists the iPhones that `devicectl` knows, from its run and the file that it wrote.
pub fn list_ios_gs_devicectl(
    platform: HostPlatform,
    run: Result<ToolRun, String>,
    document: Result<String, String>,
) -> (r: Result<Vec<UsbDevice>, AdapterError>)
    ensures
        listing(r) == devicectl_answer(platform, run_view(run), read_view(document)),
{
    match platform {
        HostPlatform::MacOs => {},
        _ => {
            return Err(
                AdapterError::UnsupportedPlatform(
                    text::own(
                        "xcrun devicectl 仅 macOS 可用；Windows 上 iOS USB 识别待接入相应工具",
                    ),
                ),
            );
        },
    }
    match run {
        Err(why) => Err(
            AdapterError::Failed(text::cat2("执行 xcrun devicectl 失败: ", why.as_str())),
        ),
        Ok(run) => {
            if !run.success {
                return Err(
                    AdapterError::Failed(
                        text::cat4(
                            "xcrun devicectl 失败（",
                            run.status.as_str(),
                            "）：",
                            text::trim(run.stderr.as_str()).as_str(),
                        ),
                    ),
                );
            }
            match document {
                Err(why) => Err(
                    AdapterError::Failed(
                        text::cat2("读取 devicectl JSON 结果失败：", why.as_str()),
                    ),
                ),
                Ok(raw) => Ok(parse_devicectl_json(raw.as_str())),
            }
        },
    }
}

// ---------------------------------------------------------------------------
// iPhone: `xcrun xcdevice list`
// ---------------------------------------------------------------------------

/// The device of one entry of `xcdevice list`, `platform` and `interface` being its two fields
/// in lower case.
pub open spec fn xcdevice_device(d: Json, platform: Seq<char>, interface: Seq<char>) -> Option<
    UsbDevice<Seq<char>>,
> {
    let id = json::text_or(d.get("identifier"@), ""@);
    if d.get("simulator"@) == Some(Json::Bool(true)) || d.get("ignored"@) == Some(Json::Bool(true))
        || d.get("available"@) == Some(Json::Bool(false)) {
        None
    } else if !text::occurs(platform, "iphoneos"@) && !text::occurs(platform, "ipad"@) {
        None
    } else if !text::occurs(interface, "usb"@) || id.len() == 0 {
        None
    } else {
        Some(
            UsbDevice {
                kind: UsbDeviceKind::Iphone,
                name: json::text_or(
                    json::or_else(d.get("name"@), d.get("modelName"@)),
                    "iPhone"@,
                ),
                id_masked: masked(id),
                raw_id: id,
                state: "connected"@,
            },
        )
    }
}

/// Whether an optional member is the truth value `b`.
fn is_bool(v: Option<&JsonValue>, b: bool) -> (r: bool)
    ensures
        r == (json::opt_model(v) == Some(Json::Bool(b))),
{
    match v {
        Some(j) => match j.as_bool() {
            Some(x) => x == b,
            None => false,
        },
        None => false,
    }
}

/// The device of one entry of `xcdevice list`, `platform` and `interface` being its two fields
/// in lower case: only a real device on USB is listed.
pub fn xcdevice_entry(d: &JsonValue, platform: &str, interface: &str) -> (r: Option<UsbDevice>)
    ensures
        opt_view(r) == xcdevice_device(d@, platform@, interface@),
{
    if is_bool(d.get("simulator"), true) || is_bool(d.get("ignored"), true) || is_bool(
        d.get("available"),
        false,
    ) {
        return None;
    }
    if !(text::contains(platform, "iphoneos") || text::contains(platform, "ipad")) {
        return None;
    }
    if !text::contains(interface, "usb") {
        return None;
    }
    let id = json::text_of_or(d.get("identifier"), "");
    if id.as_str().is_empty() {
        return None;
    }
    Some(
        UsbDevice {
            kind: UsbDeviceKind::Iphone,
            name: json::text_of_or(json::either(d.get("name"), d.get("modelName")), "iPhone"),
            id_masked: mask_id(id.as_str()),
            raw_id: id,
            state: text::own("connected"),
        },
    )
}

/// The devices of a document of `xcdevice list`.
pub open spec fn xcdevice_listing(v: Json) -> Seq<UsbDevice<Seq<char>>> {
    match v {
        Json::Array(a) => seqs::collect(
            a,
            |d: Json|
                xcdevice_device(d, lower_text(d.get("platform"@)), lower_text(d.get("interface"@))),
        ),
        _ => Seq::empty(),
    }
}

/// Reads the document that `xcdevice list` prints; a text that is no JSON lists nothing.
pub fn parse_xcdevice_json(raw: &str) -> (r: Vec<UsbDevice>)
    ensures
        views(r@) == (match json::json_of_text(raw@) {
            Some(v) => xcdevice_listing(v),
            None => Seq::empty(),
        }),
{
    let mut out: Vec<UsbDevice> = Vec::new();
    assert(views(out@) =~= Seq::<UsbDevice<Seq<char>>>::empty());
    match json::parse_json(raw) {
        Some(JsonValue::Array(a)) => {
            let ghost f = |d: Json|
                xcdevice_device(d, lower_text(d.get("platform"@)), lower_text(d.get("interface"@)));
            let ghost all = json::model(JsonValue::Array(a))->Array_0;
            proof {
                seqs::lemma_collect_ends(all, f);
            }
            let mut i: usize = 0;
            while i < a.len()
                invariant
                    i <= a@.len(),
                    all == json::model(JsonValue::Array(a))->Array_0,
                    all.len() == a@.len(),
                    f == (|d: Json|
                        xcdevice_device(
                            d,
                            lower_text(d.get("platform"@)),
                            lower_text(d.get("interface"@)),
                        )),
                    views(out@) == seqs::collect(all.take(i as int), f),
                decreases a@.len() - i,
            {
                proof {
                    seqs::lemma_collect_step(all, f, i as int);
                }
                let d = &a[i];
                let platform = lower_of(d.get("platform"));
                let interface = lower_of(d.get("interface"));
                let ghost before = out@;
                match xcdevice_entry(d, platform.as_str(), interface.as_str()) {
                    Some(x) => {
                        out.push(x);
                        assert(views(out@) =~= views(before).push(x@));
                    },
                    None => {},
                }
                i = i + 1;
            }
            proof {
                seqs::lemma_collect_ends(all, f);
            }
            out
        },
        _ => out,
    }
}

/// The answer of a run of `xcdevice list`.
pub open spec fn xcdevice_answer(
    platform: HostPlatform,
    run: Result<ToolRun<Seq<char>>, Seq<char>>,
) -> Result<Seq<UsbDevice<Seq<char>>>, AdapterError<Seq<char>>> {
    if !(platform is MacOs) {
        Err(AdapterError::UnsupportedPlatform("xcrun xcdevice 仅 macOS 可用"@))
    } else {
        match run {
            Err(why) => Err(AdapterError::Failed("执行 xcrun xcdevice 失败: "@ + why)),
            Ok(run) => if !run.success {
                Err(
                    AdapterError::Failed(
                        "xcrun xcdevice 失败（"@ + run.status + "）："@ + text::trimmed(run.stderr),
                    ),
                )
            } else {
                match json::json_of_text(run.stdout) {
                    Some(v) => Ok(xcdevice_listing(v)),
                    None => Ok(Seq::empty()),
                }
            },
        }
    }
}

/// Lists the iPhones that `xcdevice list` prints, from its run.
pub fn list_ios_xcdevice(platform: HostPlatform, run: Result<ToolRun, String>) -> (r: Result<
    Vec<UsbDevice>,
    AdapterError,
>)
    ensures
        listing(r) == xcdevice_answer(platform, run_view(run)),
{
    match platform {
        HostPlatform::MacOs => {},
        _ => {
            return Err(
                AdapterError::UnsupportedPlatform(text::own("xcrun xcdevice 仅 macOS 可用")),
            );
        },
    }
    match run {
        Err(why) => Err(
            AdapterError::Failed(text::cat2("执行 xcrun xcdevice 失败: ", why.as_str())),
        ),
        Ok(run) => {
            if !run.success {
                return Err(
                    AdapterError::Failed(
                        text::cat4(
                            "xcrun xcdevice 失败（",
                            run.status.as_str(),
                            "）：",
                            text::trim(run.stderr.as_str()).as_str(),
                        ),
                    ),
                );
            }
            Ok(parse_xcdevice_json(run.stdout.as_str()))
        },
    }
}

// ---------------------------------------------------------------------------
// iPhone: `system_profiler SPUSBDataType -json`
// ---------------------------------------------------------------------------

/// The iPhone or iPad that an object of the USB tree describes, if it describes one.
pub open spec fn profiler_device(v: Json) -> Option<UsbDevice<Seq<char>>> {
    let name = json::text_or(json::or_else(v.get("_name"@), v.get("device"@)), ""@);
    let serial = json::text_or(
        json::or_else(
            json::or_else(
                json::or_else(v.get("serial_number"@), v.get("serial_num"@)),
                v.get("serialNumber"@),
            ),
            v.get("device_serial_number"@),
        ),
        ""@,
    );
    let product = json::text_or(
        json::or_else(json::or_else(v.get("_name"@), v.get("device"@)), v.get("name"@)),
        ""@,
    );
    if serial.len() > 0 && (text::occurs(name, "iPhone"@) || text::occurs(name, "iPad"@)
        || text::occurs(product, "iPhone"@) || text::occurs(product, "iPad"@)) {
        Some(
            UsbDevice {
                kind: UsbDeviceKind::Iphone,
                name: if name.len() > 0 {
                    text::trimmed(name)
                } else {
                    text::trimmed(product)
                },
                id_masked: masked(serial),
                raw_id: serial,
                state: "connected"@,
            },
        )
    } else {
        None
    }
}

/// The devices of a USB tree: an object's own one first, then those below it.
pub open spec fn profiler_walk(v: Json) -> Seq<UsbDevice<Seq<char>>>
    decreases v, v.breadth() + 2,
{
    match v {
        Json::Array(a) => profiler_walk_all(v, a.len()),
        Json::Object(o) => {
            let below = profiler_walk_all(v, o.len());
            match profiler_device(v) {
                Some(d) => seq![d] + below,
                None => below,
            }
        },
        _ => Seq::empty(),
    }
}

/// The devices below the first `n` children of a node.
pub open spec fn profiler_walk_all(v: Json, n: nat) -> Seq<UsbDevice<Seq<char>>>
    decreases v, n + 1,
{
    if n == 0 {
        Seq::empty()
    } else {
        match v {
            Json::Array(a) => if n <= a.len() {
                profiler_walk_all(v, (n - 1) as nat) + profiler_walk(a[n - 1])
            } else {
                Seq::empty()
            },
            Json::Object(o) => if n <= o.len() {
                profiler_walk_all(v, (n - 1) as nat) + profiler_walk(o[n - 1].1)
            } else {
                Seq::empty()
            },
            _ => Seq::empty(),
        }
    }
}

fn profiler_entry(v: &JsonValue) -> (r: Option<UsbDevice>)
    ensures
        opt_view(r) == profiler_device(v@),
{
    let named = json::either(v.get("_name"), v.get("device"));
    let name = json::text_of_or(named, "");
    let serial = json::text_of_or(
        json::either(
            json::either(
                json::either(v.get("serial_number"), v.get("serial_num")),
                v.get("serialNumber"),
            ),
            v.get("device_serial_number"),
        ),
        "",
    );
    let product = json::text_of_or(json::either(named, v.get("name")), "");
    if !serial.as_str().is_empty() && (text::contains(name.as_str(), "iPhone") || text::contains(
        name.as_str(),
        "iPad",
    ) || text::contains(product.as_str(), "iPhone") || text::contains(product.as_str(), "iPad")) {
        Some(
            UsbDevice {
                kind: UsbDeviceKind::Iphone,
                name: if !name.as_str().is_empty() {
                    text::trim(name.as_str())
                } else {
                    text::trim(product.as_str())
                },
                id_masked: mask_id(serial.as_str()),
                raw_id: serial,
                state: text::own("connected"),
            },
        )
    } else {
        None
    }
}

/// Appends the devices of a USB tree.
pub fn walk_profiler(v: &JsonValue, out: &mut Vec<UsbDevice>)
    ensures
        views(final(out)@) == views(old(out)@) + profiler_walk(v@),
    decreases v,
{
    let ghost start = views(out@);
    match v {
        JsonValue::Array(a) => {
            let mut i: usize = 0;
            while i < a.len()
                invariant
                    i <= a@.len(),
                    *v == JsonValue::Array(*a),
                    views(out@) =~= start + profiler_walk_all(v@, i as nat),
                decreases a@.len() - i,
            {
                let ghost before = views(out@);
                walk_profiler(&a[i], out);
                assert(v@->Array_0[i as int] == a@[i as int]@);
                assert(views(out@) =~= start + (profiler_walk_all(v@, i as nat) + profiler_walk(
                    a@[i as int]@,
                )));
                i = i + 1;
            }
        },
        JsonValue::Object(o) => {
            let ghost own: Seq<UsbDevice<Seq<char>>> = Seq::empty();
            let ghost mut head = own;
            match profiler_entry(v) {
                Some(d) => {
                    let ghost before = out@;
                    out.push(d);
                    proof {
                        head = seq![d@];
                        assert(views(out@) =~= views(before).push(d@));
                    }
                },
                None => {},
            }
            let mut i: usize = 0;
            while i < o.len()
                invariant
                    i <= o@.len(),
                    *v == JsonValue::Object(*o),
                    views(out@) =~= start + head + profiler_walk_all(v@, i as nat),
                decreases o@.len() - i,
            {
                walk_profiler(&o[i].1, out);
                assert(v@->Object_0[i as int] == (o@[i as int].0@, o@[i as int].1@));
                assert(views(out@) =~= start + head + (profiler_walk_all(v@, i as nat)
                    + profiler_walk(o@[i as int].1@)));
                i = i + 1;
            }
            assert(views(out@) =~= start + (head + profiler_walk_all(v@, o@.len())));
            assert(profiler_walk(v@) =~= head + profiler_walk_all(v@, o@.len()));
        },
        _ => {
            assert(views(out@) =~= start + profiler_walk(v@));
        },
    }
}

/// The devices of the USB tree that a text describes; one that is no JSON describes none.
pub open spec fn profiler_listing(raw: Seq<char>) -> Seq<UsbDevice<Seq<char>>> {
    match json::json_of_text(raw) {
        Some(v) => profiler_walk(v),
        None => Seq::empty(),
    }
}

/// Lists the iPhones in the USB tree that `system_profiler` prints; a text that is no JSON
/// lists nothing.
pub fn list_ios_system_profiler(raw: &str) -> (r: Vec<UsbDevice>)
    ensures
        views(r@) == profiler_listing(raw@),
{
    let mut out: Vec<UsbDevice> = Vec::new();
    assert(views(out@) =~= Seq::<UsbDevice<Seq<char>>>::empty());
    match json::parse_json(raw) {
        Some(v) => {
            walk_profiler(&v, &mut out);
            assert(views(out@) =~= profiler_walk(v@));
            out
        },
        None => out,
    }
}

/// Lists the iPhones in the USB tree that the bytes describe that `system_profiler` prints;
/// bytes that are no text list nothing.
pub fn list_ios_profiler_output(printed: Vec<u8>) -> (r: Vec<UsbDevice>)
    ensures
        views(r@) == (if vstd::utf8::valid_utf8(printed@) {
            profiler_listing(vstd::utf8::decode_utf8(printed@))
        } else {
            Seq::empty()
        }),
{
    match text::from_utf8(printed) {
        Some(raw) => list_ios_system_profiler(raw.as_str()),
        None => {
            let out: Vec<UsbDevice> = Vec::new();
            assert(views(out@) =~= Seq::<UsbDevice<Seq<char>>>::empty());
            out
        },
    }
}

// ---------------------------------------------------------------------------
// iPhone: `idevice_id -l` and `ios list`
// ---------------------------------------------------------------------------

/// Letters, digits, `-`, `_` and `.`.
pub open spec fn id_char(c: char) -> bool {
    text::is_alphanumeric(c) || c == '-' || c == '_' || c == '.'
}

/// A plausible device identifier: at most 128 letters, digits, `-`, `_` and `.`.
pub open spec fn valid_id(id: Seq<char>) -> bool {
    &&& 0 < id.len() <= 128
    &&& forall|i: int| 0 <= i < id.len() ==> id_char(#[trigger] id[i])
}

proof fn lemma_ascii_byte_length(s: Seq<char>)
    requires
        forall|i: int| 0 <= i < s.len() ==> id_char(#[trigger] s[i]),
    ensures
        text::byte_length(s) == s.len(),
    decreases s.len(),
{
    if s.len() > 0 {
        assert forall|i: int| 0 <= i < s.drop_first().len() implies id_char(
            #[trigger] s.drop_first()[i],
        ) by {
            assert(s.drop_first()[i] == s[i + 1]);
        }
        lemma_ascii_byte_length(s.drop_first());
        assert(id_char(s[0]));
    }
}

/// Whether every character may stand in an identifier.
pub fn all_id_chars(v: &[char]) -> (r: bool)
    ensures
        r == (forall|i: int| 0 <= i < v@.len() ==> id_char(#[trigger] v@[i])),
{
    let mut i: usize = 0;
    while i < v.len()
        invariant
            i <= v@.len(),
            forall|j: int| 0 <= j < i ==> id_char(#[trigger] v@[j]),
        decreases v@.len() - i,
    {
        let c = v[i];
        if !(text::alphanumeric(c) || c == '-' || c == '_' || c == '.') {
            assert(!id_char(v@[i as int]));
            return false;
        }
        i = i + 1;
    }
    true
}

/// Whether a text is a plausible device identifier.
pub fn is_valid_id(id: &str) -> (r: bool)
    ensures
        r == valid_id(id@),
{
    let v = text::chars_of(id);
    let n: usize = text::byte_len(id);
    let ok = all_id_chars(&v);
    proof {
        if ok {
            lemma_ascii_byte_length(id@);
        }
    }
    n > 0 && n <= 128 && ok
}

/// The identifier on a line of `idevice_id -l`.
pub open spec fn idevice_row(line: Seq<char>) -> Option<Seq<char>> {
    let t = text::trimmed(line);
    if valid_id(t) {
        Some(t)
    } else {
        None
    }
}

/// Reads the identifiers that `idevice_id -l` prints; lines that are no identifier are skipped.
pub fn parse_idevice_id_output(output: &str) -> (r: Vec<String>)
    ensures
        text::texts(r@) == seqs::collect(text::lines_of(output@), |l: Seq<char>| idevice_row(l)),
{
    let lines = text::lines(output);
    let ghost f = |l: Seq<char>| idevice_row(l);
    let ghost all = text::lines_of(output@);
    let mut out: Vec<String> = Vec::new();
    let mut i: usize = 0;
    proof {
        seqs::lemma_collect_ends(all, f);
        assert(text::texts(out@) =~= Seq::<Seq<char>>::empty());
    }
    while i < lines.len()
        invariant
            i <= lines@.len(),
            text::texts(lines@) == all,
            f == (|l: Seq<char>| idevice_row(l)),
            text::texts(out@) == seqs::collect(all.take(i as int), f),
        decreases lines@.len() - i,
    {
        proof {
            seqs::lemma_collect_step(all, f, i as int);
            assert(all[i as int] == lines@[i as int]@);
        }
        let t = text::trim(lines[i].as_str());
        let ghost before = out@;
        if is_valid_id(t.as_str()) {
            out.push(t);
            assert(text::texts(out@) =~= text::texts(before).push(t@));
        }
        i = i + 1;
    }
    proof {
        seqs::lemma_collect_ends(all, f);
    }
    out
}

/// `ids` with `id` at its end, unless `id` is no plausible identifier or is there already.
pub open spec fn with_id(ids: Seq<Seq<char>>, id: Seq<char>) -> Seq<Seq<char>> {
    if valid_id(id) && !ids.contains(id) {
        ids.push(id)
    } else {
        ids
    }
}

/// `ids` with the text of an optional member.
pub open spec fn with_member(ids: Seq<Seq<char>>, v: Option<Json>) -> Seq<Seq<char>> {
    match v {
        Some(Json::Text(s)) => with_id(ids, s),
        _ => ids,
    }
}

/// `ids` with the identifiers of the first `n` elements of a list.
pub open spec fn with_all(ids: Seq<Seq<char>>, v: Json, n: nat) -> Seq<Seq<char>>
    decreases v, n + 1,
{
    match v {
        Json::Array(a) => if 0 < n <= a.len() {
            with_ids(with_all(ids, v, (n - 1) as nat), a[n - 1])
        } else {
            ids
        },
        _ => ids,
    }
}

/// `ids` with the identifiers below the member at `i`, if `i` is one of the members of `v`.
pub open spec fn with_child(ids: Seq<Seq<char>>, v: Json, i: int) -> Seq<Seq<char>>
    decreases v, 1int,
{
    match v {
        Json::Object(o) => if 0 <= i < o.len() {
            with_ids(ids, o[i].1)
        } else {
            ids
        },
        _ => ids,
    }
}

/// The position of a member.
pub open spec fn place(v: Json, key: Seq<char>) -> int {
    match v {
        Json::Object(o) => json::member_at(o, key, 0),
        _ => -1,
    }
}

/// `ids` with the identifiers that a document of `ios list` adds, each kept once, in the
/// order in which they are met: a text stands for itself; a list for its elements; an object
/// for its `udid`, `UDID`, `serialNumber` and `serial_number`, then for what stands below its
/// `deviceList`, `devices`, `DeviceList` and `properties`.
pub open spec fn with_ids(ids: Seq<Seq<char>>, v: Json) -> Seq<Seq<char>>
    decreases v, v.breadth() + 2,
{
    match v {
        Json::Array(a) => with_all(ids, v, a.len()),
        Json::Text(s) => with_id(ids, s),
        Json::Object(_) => {
            let own = with_member(
                with_member(
                    with_member(with_member(ids, v.get("udid"@)), v.get("UDID"@)),
                    v.get("serialNumber"@),
                ),
                v.get("serial_number"@),
            );
            with_child(
                with_child(
                    with_child(
                        with_child(own, v, place(v, "deviceList"@)),
                        v,
                        place(v, "devices"@),
                    ),
                    v,
                    place(v, "DeviceList"@),
                ),
                v,
                place(v, "properties"@),
            )
        },
        _ => ids,
    }
}

fn add_id(ids: &mut Vec<String>, id: &str)
    ensures
        text::texts(final(ids)@) == with_id(text::texts(old(ids)@), id@),
{
    if is_valid_id(id) && !text::has_text(ids, id) {
        let ghost before = ids@;
        ids.push(text::own(id));
        assert(text::texts(ids@) =~= text::texts(before).push(id@));
    }
}

fn add_member(ids: &mut Vec<String>, v: Option<&JsonValue>)
    ensures
        text::texts(final(ids)@) == with_member(text::texts(old(ids)@), json::opt_model(v)),
{
    match v {
        Some(j) => match j.as_str() {
            Some(s) => add_id(ids, s),
            None => {},
        },
        None => {},
    }
}

/// Appends the identifiers that a document of `ios list` holds, each one once.
pub fn collect_ids(v: &JsonValue, ids: &mut Vec<String>)
    ensures
        text::texts(final(ids)@) == with_ids(text::texts(old(ids)@), v@),
    decreases v@,
{
    let ghost start = text::texts(ids@);
    match v {
        JsonValue::Array(a) => {
            let mut i: usize = 0;
            while i < a.len()
                invariant
                    i <= a@.len(),
                    *v == JsonValue::Array(*a),
                    text::texts(ids@) == with_all(start, v@, i as nat),
                decreases a@.len() - i,
            {
                assert(v@->Array_0[i as int] == a@[i as int]@);
                collect_ids(&a[i], ids);
                i = i + 1;
            }
        },
        JsonValue::Text(s) => add_id(ids, s.as_str()),
        JsonValue::Object(_) => {
            add_member(ids, v.get("udid"));
            add_member(ids, v.get("UDID"));
            add_member(ids, v.get("serialNumber"));
            add_member(ids, v.get("serial_number"));
            match v.get("deviceList") {
                Some(x) => {
                    assert(x@ == v@->Object_0[place(v@, "deviceList"@)].1);
                    collect_ids(x, ids);
                },
                None => {},
            }
            match v.get("devices") {
                Some(x) => {
                    assert(x@ == v@->Object_0[place(v@, "devices"@)].1);
                    collect_ids(x, ids);
                },
                None => {},
            }
            match v.get("DeviceList") {
                Some(x) => {
                    assert(x@ == v@->Object_0[place(v@, "DeviceList"@)].1);
                    collect_ids(x, ids);
                },
                None => {},
            }
            match v.get("properties") {
                Some(x) => {
                    assert(x@ == v@->Object_0[place(v@, "properties"@)].1);
                    collect_ids(x, ids);
                },
                None => {},
            }
        },
        _ => {},
    }
}

/// Reads the identifiers that `ios list` prints; a text that is no JSON lists none.
pub fn parse_go_ios_list_output(output: &str) -> (r: Vec<String>)
    ensures
        text::texts(r@) == (match json::json_of_text(output@) {
            Some(v) => with_ids(Seq::empty(), v),
            None => Seq::empty(),
        }),
{
    let mut ids: Vec<String> = Vec::new();
    assert(text::texts(ids@) =~= Seq::<Seq<char>>::empty());
    match json::parse_json(output) {
        Some(v) => {
            collect_ids(&v, &mut ids);
            ids
        },
        None => ids,
    }
}

/// The device of which only the identifier is known.
pub open spec fn plain_iphone(id: Seq<char>) -> UsbDevice<Seq<char>> {
    UsbDevice {
        kind: UsbDeviceKind::Iphone,
        name: "iPhone"@,
        id_masked: masked(id),
        raw_id: id,
        state: "connected"@,
    }
}

/// The devices of a list of identifiers.
pub open spec fn plain_iphones(ids: Seq<Seq<char>>) -> Seq<UsbDevice<Seq<char>>> {
    Seq::new(ids.len(), |i: int| plain_iphone(ids[i]))
}

fn iphones_of(ids: &Vec<String>) -> (r: Vec<UsbDevice>)
    ensures
        views(r@) == plain_iphones(text::texts(ids@)),
{
    let mut out: Vec<UsbDevice> = Vec::new();
    let mut i: usize = 0;
    while i < ids.len()
        invariant
            i <= ids@.len(),
            views(out@) =~= plain_iphones(text::texts(ids@)).take(i as int),
        decreases ids@.len() - i,
    {
        let id = ids[i].as_str();
        let d = UsbDevice {
            kind: UsbDeviceKind::Iphone,
            name: text::own("iPhone"),
            id_masked: mask_id(id),
            raw_id: text::own(id),
            state: text::own("connected"),
        };
        let ghost before = out@;
        out.push(d);
        assert(views(out@) =~= views(before).push(d@));
        assert(d@ == plain_iphone(text::texts(ids@)[i as int]));
        i = i + 1;
    }
    out
}

/// The contents of the outcome of starting a tool that may be missing.
pub open spec fn tool_view(run: Option<Result<ToolRun, String>>) -> Option<
    Result<ToolRun<Seq<char>>, Seq<char>>,
> {
    match run {
        Some(run) => Some(run_view(run)),
        None => None,
    }
}

/// The answer of a run of `ios list`.
pub open spec fn go_ios_answer(run: Option<Result<ToolRun<Seq<char>>, Seq<char>>>) -> Result<
    Seq<UsbDevice<Seq<char>>>,
    AdapterError<Seq<char>>,
> {
    match run {
        None => Err(
            AdapterError::DependencyMissing("未找到 go-ios（ios.exe），无法枚举 Windows iPhone"@),
        ),
        Some(Err(why)) => Err(AdapterError::Failed("执行 go-ios list 失败："@ + why)),
        Some(Ok(run)) => if !run.success {
            Err(
                integrations::run_failure(
                    "go-ios list 失败（"@,
                    run.status,
                    "）"@,
                    text::trimmed(run.stderr),
                ),
            )
        } else {
            Ok(
                plain_iphones(
                    match json::json_of_text(run.stdout) {
                        Some(v) => with_ids(Seq::empty(), v),
                        None => Seq::empty(),
                    },
                ),
            )
        },
    }
}

/// Lists the iPhones that `ios list` prints: `run` is its run or why it could not be started,
/// `None` where the tool is missing.
pub fn list_ios_go_ios(run: Option<Result<ToolRun, String>>) -> (r: Result<
    Vec<UsbDevice>,
    AdapterError,
>)
    ensures
        listing(r) == go_ios_answer(tool_view(run)),
{
    match run {
        None => Err(
            AdapterError::DependencyMissing(
                text::own("未找到 go-ios（ios.exe），无法枚举 Windows iPhone"),
            ),
        ),
        Some(Err(why)) => Err(
            AdapterError::Failed(text::cat2("执行 go-ios list 失败：", why.as_str())),
        ),
        Some(Ok(run)) => {
            if !run.success {
                let detail = text::trim(run.stderr.as_str());
                return Err(
                    report_run_failure(
                        "go-ios list 失败（",
                        run.status.as_str(),
                        "）",
                        detail.as_str(),
                    ),
                );
            }
            Ok(iphones_of(&parse_go_ios_list_output(run.stdout.as_str())))
        },
    }
}

/// The answer of a run of `idevice_id -l`.
pub open spec fn idevice_answer(run: Option<Result<ToolRun<Seq<char>>, Seq<char>>>) -> Result<
    Seq<UsbDevice<Seq<char>>>,
    AdapterError<Seq<char>>,
> {
    match run {
        None => Err(
            AdapterError::DependencyMissing(
                "未找到 idevice_id（可选的跨平台 iOS USB 识别工具）"@,
            ),
        ),
        Some(Err(why)) => Err(AdapterError::Failed("执行 idevice_id 失败："@ + why)),
        Some(Ok(run)) => if !run.success {
            Err(
                integrations::run_failure(
                    "idevice_id 失败（"@,
                    run.status,
                    "）"@,
                    integrations::digest_of(run.stderr),
                ),
            )
        } else {
            Ok(
                plain_iphones(
                    seqs::collect(text::lines_of(run.stdout), |l: Seq<char>| idevice_row(l)),
                ),
            )
        },
    }
}

/// Lists the iPhones that `idevice_id -l` prints: `run` is its run or why it could not be
/// started, `None` where the tool is missing.
pub fn list_ios_idevice_id(run: Option<Result<ToolRun, String>>) -> (r: Result<
    Vec<UsbDevice>,
    AdapterError,
>)
    ensures
        listing(r) == idevice_answer(tool_view(run)),
{
    match run {
        None => Err(
            AdapterError::DependencyMissing(
                text::own("未找到 idevice_id（可选的跨平台 iOS USB 识别工具）"),
            ),
        ),
        Some(Err(why)) => Err(
            AdapterError::Failed(text::cat2("执行 idevice_id 失败：", why.as_str())),
        ),
        Some(Ok(run)) => {
            if !run.success {
                let detail = digest(run.stderr.as_str());
                return Err(
                    report_run_failure(
                        "idevice_id 失败（",
                        run.status.as_str(),
                        "）",
                        detail.as_str(),
                    ),
                );
            }
            Ok(iphones_of(&parse_idevice_id_output(run.stdout.as_str())))
        },
    }
}

// ---------------------------------------------------------------------------
// All sources together
// ---------------------------------------------------------------------------

/// Whether two entries are of the same device.
pub open spec fn same_device(a: UsbDevice<Seq<char>>, b: UsbDevice<Seq<char>>) -> bool {
    a.kind == b.kind && a.raw_id == b.raw_id
}

/// A known entry with what a second one of the same device adds: that it is connected, and a
/// name where the known one is only a stand-in.
pub open spec fn improved(old: UsbDevice<Seq<char>>, new: UsbDevice<Seq<char>>) -> UsbDevice<
    Seq<char>,
> {
    UsbDevice {
        state: if old.state != "connected"@ && new.state == "connected"@ {
            new.state
        } else {
            old.state
        },
        name: if (old.name == "iPhone"@ || old.name == "Android 设备"@) && new.name.len() > 0 {
            new.name
        } else {
            old.name
        },
        ..old
    }
}

/// `devices` with `new` merged in: into the first entry of the same device, else at the end.
pub open spec fn merged(devices: Seq<UsbDevice<Seq<char>>>, new: UsbDevice<Seq<char>>) -> Seq<
    UsbDevice<Seq<char>>,
> {
    let i = seqs::first_from(devices, |d: UsbDevice<Seq<char>>| same_device(d, new), 0);
    if 0 <= i < devices.len() {
        devices.update(i, improved(devices[i], new))
    } else {
        devices.push(new)
    }
}

fn is_same_kind(a: UsbDeviceKind, b: UsbDeviceKind) -> (r: bool)
    ensures
        r == (a == b),
{
    a == b
}

/// Merges an entry into a list: into the first entry of the same device, else at the end.
pub fn merge_device(devices: &mut Vec<UsbDevice>, candidate: UsbDevice)
    ensures
        views(final(devices)@) == merged(views(old(devices)@), candidate@),
{
    let ghost f = |d: UsbDevice<Seq<char>>| same_device(d, candidate@);
    let ghost all = views(devices@);
    let mut i: usize = 0;
    while i < devices.len()
        invariant
            i <= devices@.len(),
            all == views(devices@),
            *devices == *old(devices),
            f == (|d: UsbDevice<Seq<char>>| same_device(d, candidate@)),
            forall|j: int| 0 <= j < i ==> !f(#[trigger] all[j]),
        decreases devices@.len() - i,
    {
        assert(all[i as int] == devices@[i as int]@);
        if is_same_kind(devices[i].kind, candidate.kind) && text::same(
            devices[i].raw_id.as_str(),
            candidate.raw_id.as_str(),
        ) {
            proof {
                seqs::lemma_first_from_is(all, f, 0, i as int);
            }
            let old_name = devices[i].name.as_str();
            let take_state = !text::same(devices[i].state.as_str(), "connected") && text::same(
                candidate.state.as_str(),
                "connected",
            );
            let take_name = (text::same(old_name, "iPhone") || text::same(old_name, "Android 设备"))
                && !candidate.name.as_str().is_empty();
            let kept = devices[i].clone();
            let better = UsbDevice {
                kind: kept.kind,
                name: if take_name {
                    candidate.name
                } else {
                    kept.name
                },
                id_masked: kept.id_masked,
                raw_id: kept.raw_id,
                state: if take_state {
                    candidate.state
                } else {
                    kept.state
                },
            };
            assert(better@ == improved(all[i as int], candidate@));
            devices.set(i, better);
            assert(views(devices@) =~= all.update(i as int, better@));
            return;
        }
        i = i + 1;
    }
    proof {
        seqs::lemma_first_from_is(all, f, 0, i as int);
    }
    devices.push(candidate);
    assert(views(devices@) =~= all.push(candidate@));
}

/// No device is listed twice.
pub open spec fn distinct(devices: Seq<UsbDevice<Seq<char>>>) -> bool {
    forall|i: int, j: int|
        0 <= i < j < devices.len() ==> !same_device(#[trigger] devices[i], #[trigger] devices[j])
}

/// Merging an entry into a list without repetitions leaves it without repetitions, keeps every
/// device, and lists the merged one.
pub proof fn merge_keeps_devices_distinct(
    devices: Seq<UsbDevice<Seq<char>>>,
    new: UsbDevice<Seq<char>>,
)
    requires
        distinct(devices),
    ensures
        distinct(merged(devices, new)),
        forall|i: int|
            0 <= i < devices.len() ==> same_device(
                #[trigger] merged(devices, new)[i],
                devices[i],
            ),
        exists|i: int|
            0 <= i < merged(devices, new).len() && same_device(
                #[trigger] merged(devices, new)[i],
                new,
            ),
{
    let f = |d: UsbDevice<Seq<char>>| same_device(d, new);
    seqs::lemma_first_from(devices, f, 0);
    let i = seqs::first_from(devices, f, 0);
    if i < devices.len() {
        assert(f(devices[i]));
        assert(same_device(merged(devices, new)[i], new));
    } else {
        assert forall|j: int| 0 <= j < devices.len() implies !same_device(
            #[trigger] devices[j],
            new,
        ) by {
            assert(!f(devices[j]));
        }
        assert(same_device(merged(devices, new)[devices.len() as int], new));
    }
}

/// The list with the entries of another merged in, one after the other.
pub open spec fn merged_all(
    devices: Seq<UsbDevice<Seq<char>>>,
    new: Seq<UsbDevice<Seq<char>>>,
) -> Seq<UsbDevice<Seq<char>>>
    decreases new.len(),
{
    if new.len() == 0 {
        devices
    } else {
        merged(merged_all(devices, new.drop_last()), new.last())
    }
}

fn merge_all(devices: &mut Vec<UsbDevice>, new: Vec<UsbDevice>)
    ensures
        views(final(devices)@) == merged_all(views(old(devices)@), views(new@)),
{
    let ghost start = views(devices@);
    let ghost all = views(new@);
    let mut i: usize = 0;
    assert(all.take(0) =~= Seq::<UsbDevice<Seq<char>>>::empty());
    while i < new.len()
        invariant
            i <= new@.len(),
            all == views(new@),
            views(devices@) == merged_all(start, all.take(i as int)),
        decreases new@.len() - i,
    {
        assert(all.take(i + 1).drop_last() =~= all.take(i as int));
        assert(all.take(i + 1).last() == new@[i as int]@);
        merge_device(devices, new[i].clone());
        i = i + 1;
    }
    assert(all.take(i as int) =~= all);
}

/// Whether a list holds an iPhone.
pub open spec fn has_iphone(devices: Seq<UsbDevice<Seq<char>>>) -> bool {
    exists|i: int| 0 <= i < devices.len() && (#[trigger] devices[i]).kind is Iphone
}

fn any_iphone(devices: &Vec<UsbDevice>) -> (r: bool)
    ensures
        r == has_iphone(views(devices@)),
{
    let mut i: usize = 0;
    while i < devices.len()
        invariant
            i <= devices@.len(),
            forall|j: int| 0 <= j < i ==> !((#[trigger] views(devices@)[j]).kind is Iphone),
        decreases devices@.len() - i,
    {
        assert(views(devices@)[i as int] == devices@[i as int]@);
        match devices[i].kind {
            UsbDeviceKind::Iphone => {
                return true;
            },
            _ => {},
        }
        i = i + 1;
    }
    false
}

/// Where a device list comes from.
#[derive(Debug, Clone, Copy, PartialEq, Eq, Structural)]
pub enum UsbSource {
    Devicectl,
    SystemProfiler,
    Xcdevice,
    IdeviceId,
    GoIos,
    Android,
}

/// A discovery in progress: the next source to ask, the devices found, why iPhone sources did
/// not answer, and the notes for the user.
pub struct UsbScan {
    pub next: Option<UsbSource>,
    pub devices: Vec<UsbDevice>,
    pub unanswered: Vec<String>,
    pub notes: Vec<String>,
}

/// The contents of a discovery in progress.
pub struct ScanState {
    pub next: Option<UsbSource>,
    pub devices: Seq<UsbDevice<Seq<char>>>,
    pub unanswered: Seq<Seq<char>>,
    pub notes: Seq<Seq<char>>,
}

impl View for UsbScan {
    type V = ScanState;

    open spec fn view(&self) -> ScanState {
        ScanState {
            next: self.next,
            devices: views(self.devices@),
            unanswered: text::texts(self.unanswered@),
            notes: text::texts(self.notes@),
        }
    }
}

/// The source that is asked after `source`, once the devices found are `devices`: the iPhone
/// sources behind the system profiler are asked only as long as no iPhone is known.
pub open spec fn source_after(source: UsbSource, devices: Seq<UsbDevice<Seq<char>>>) -> Option<
    UsbSource,
> {
    match source {
        UsbSource::Devicectl => Some(UsbSource::SystemProfiler),
        UsbSource::Android => None,
        _ => if has_iphone(devices) {
            Some(UsbSource::Android)
        } else {
            match source {
                UsbSource::SystemProfiler => Some(UsbSource::Xcdevice),
                UsbSource::Xcdevice => Some(UsbSource::IdeviceId),
                UsbSource::IdeviceId => Some(UsbSource::GoIos),
                _ => Some(UsbSource::Android),
            }
        },
    }
}

/// The name by which a failed source is reported.
pub open spec fn source_label(source: UsbSource) -> Seq<char> {
    match source {
        UsbSource::Devicectl => "devicectl："@,
        UsbSource::SystemProfiler => "system_profiler："@,
        UsbSource::Xcdevice => "xcdevice："@,
        UsbSource::IdeviceId => "idevice_id："@,
        UsbSource::GoIos => "go-ios："@,
        UsbSource::Android => "Android（adb 设备枚举）："@,
    }
}

impl ScanState {
    /// The discovery after the source it asked has answered.
    pub open spec fn answered(
        self,
        answer: Result<Seq<UsbDevice<Seq<char>>>, AdapterError<Seq<char>>>,
    ) -> ScanState {
        match self.next {
            None => self,
            Some(source) => {
                let devices = match answer {
                    Ok(found) => match source {
                        UsbSource::Devicectl | UsbSource::Android => self.devices + found,
                        _ => merged_all(self.devices, found),
                    },
                    Err(_) => self.devices,
                };
                let unanswered = match answer {
                    Err(e) if !(source is Android) => self.unanswered.push(
                        source_label(source) + e.message_text(),
                    ),
                    _ => self.unanswered,
                };
                let next = source_after(source, devices);
                let notes = if source is Android {
                    match answer {
                        Err(e) => self.notes.push(source_label(source) + e.message_text()),
                        Ok(_) => self.notes,
                    }
                } else if next == Some(UsbSource::Android) && !has_iphone(devices)
                    && unanswered.len() > 0 {
                    self.notes.push("iPhone（USB）："@ + text::joined(unanswered, "；"@))
                } else {
                    self.notes
                };
                ScanState { next, devices, unanswered, notes }
            },
        }
    }

    /// The discovery after it was to ask for Android devices and `adb` could not be located.
    pub open spec fn without_adb(self, why: Seq<char>) -> ScanState {
        if self.next == Some(UsbSource::Android) {
            ScanState {
                next: None,
                notes: self.notes.push("Android（adb 定位）："@ + why),
                ..self
            }
        } else {
            self
        }
    }

    /// The discovery after a source was asked.
    pub open spec fn asked(self, output: SourceOutput) -> ScanState {
        match output {
            SourceOutput::NoAdb { why } => self.without_adb(why),
            _ => self.answered(source_answer(output)),
        }
    }
}

/// A discovery that has asked nothing yet.
pub open spec fn fresh_scan() -> ScanState {
    ScanState {
        next: Some(UsbSource::Devicectl),
        devices: Seq::empty(),
        unanswered: Seq::empty(),
        notes: Seq::empty(),
    }
}

impl UsbScan {
    /// A discovery that has asked nothing yet.
    pub fn new() -> (r: UsbScan)
        ensures
            r@ == fresh_scan(),
    {
        let r = UsbScan {
            next: Some(UsbSource::Devicectl),
            devices: Vec::new(),
            unanswered: Vec::new(),
            notes: Vec::new(),
        };
        assert(r@.devices =~= Seq::<UsbDevice<Seq<char>>>::empty());
        assert(r@.unanswered =~= Seq::<Seq<char>>::empty());
        assert(r@.notes =~= Seq::<Seq<char>>::empty());
        r
    }

    /// Takes the answer of the source that `next` names.
    pub fn answer(&mut self, answer: Result<Vec<UsbDevice>, AdapterError>)
        ensures
            final(self)@ == old(self)@.answered(listing(answer)),
    {
        let ghost start = self@;
        let source = match self.next {
            None => {
                return;
            },
            Some(s) => s,
        };
        let is_android = matches!(source, UsbSource::Android);
        match answer {
            Ok(found) => {
                let ghost new = views(found@);
                match source {
                    UsbSource::Devicectl | UsbSource::Android => {
                        let ghost before = self.devices@;
                        let mut found = found;
                        self.devices.append(&mut found);
                        assert(views(self.devices@) =~= views(before) + new);
                    },
                    _ => {
                        merge_all(&mut self.devices, found);
                    },
                }
            },
            Err(e) => {
                let label = match source {
                    UsbSource::Devicectl => "devicectl：",
                    UsbSource::SystemProfiler => "system_profiler：",
                    UsbSource::Xcdevice => "xcdevice：",
                    UsbSource::IdeviceId => "idevice_id：",
                    UsbSource::GoIos => "go-ios：",
                    UsbSource::Android => "Android（adb 设备枚举）：",
                };
                let line = text::cat2(label, e.message().as_str());
                if is_android {
                    let ghost before = self.notes@;
                    self.notes.push(line);
                    assert(text::texts(self.notes@) =~= text::texts(before).push(line@));
                } else {
                    let ghost before = self.unanswered@;
                    self.unanswered.push(line);
                    assert(text::texts(self.unanswered@) =~= text::texts(before).push(line@));
                }
            },
        }
        let known = any_iphone(&self.devices);
        self.next = match source {
            UsbSource::Devicectl => Some(UsbSource::SystemProfiler),
            UsbSource::Android => None,
            _ => if known {
                Some(UsbSource::Android)
            } else {
                match source {
                    UsbSource::SystemProfiler => Some(UsbSource::Xcdevice),
                    UsbSource::Xcdevice => Some(UsbSource::IdeviceId),
                    UsbSource::IdeviceId => Some(UsbSource::GoIos),
                    _ => Some(UsbSource::Android),
                }
            },
        };
        if !is_android && matches!(self.next, Some(UsbSource::Android)) && !known
            && self.unanswered.len() > 0 {
            let line = text::cat2(
                "iPhone（USB）：",
                text::join(&self.unanswered, "；").as_str(),
            );
            let ghost before = self.notes@;
            self.notes.push(line);
            assert(text::texts(self.notes@) =~= text::texts(before).push(line@));
        }
        assert(self@ == start.answered(listing(answer)));
    }

    /// Reports that `adb` could not be located, in place of the answer of the Android source.
    pub fn adb_not_located(&mut self, why: &str)
        ensures
            final(self)@ == old(self)@.without_adb(why@),
    {
        match self.next {
            Some(UsbSource::Android) => {
                let ghost before = self.notes@;
                let line = text::cat2("Android（adb 定位）：", why);
                self.notes.push(line);
                assert(text::texts(self.notes@) =~= text::texts(before).push(line@));
                self.next = None;
            },
            _ => {},
        }
    }
}

/// The last iPhone source is asked only when no iPhone has been found before it.
pub proof fn fallbacks_wait_for_an_empty_list(
    s: ScanState,
    answer: Result<Seq<UsbDevice<Seq<char>>>, AdapterError<Seq<char>>>,
)
    requires
        s.next is Some,
    ensures
        ({
            let t = s.answered(answer);
            t.next == Some(UsbSource::Xcdevice) || t.next == Some(UsbSource::IdeviceId) || t.next
                == Some(UsbSource::GoIos) ==> !has_iphone(t.devices)
        }),
{
}

// ---------------------------------------------------------------------------
// What holds of a whole discovery
// ---------------------------------------------------------------------------

/// What the tool of a source gave out.
pub enum SourceOutput {
    Devicectl {
        platform: HostPlatform,
        run: Result<ToolRun<Seq<char>>, Seq<char>>,
        document: Result<Seq<char>, Seq<char>>,
    },
    SystemProfiler { raw: Seq<char> },
    Xcdevice { platform: HostPlatform, run: Result<ToolRun<Seq<char>>, Seq<char>> },
    IdeviceId { tool: Option<Result<ToolRun<Seq<char>>, Seq<char>>> },
    GoIos { tool: Option<Result<ToolRun<Seq<char>>, Seq<char>>> },
    Android {
        adb: Seq<char>,
        exists: bool,
        basic: Result<ToolRun<Seq<char>>, Seq<char>>,
        detail: Seq<char>,
    },
    /// `adb` could not be located.
    NoAdb { why: Seq<char> },
}

/// The answer that is read out of what a tool gave out.
pub open spec fn source_answer(output: SourceOutput) -> Result<
    Seq<UsbDevice<Seq<char>>>,
    AdapterError<Seq<char>>,
> {
    match output {
        SourceOutput::Devicectl { platform, run, document } => devicectl_answer(
            platform,
            run,
            document,
        ),
        SourceOutput::SystemProfiler { raw } => Ok(profiler_listing(raw)),
        SourceOutput::Xcdevice { platform, run } => xcdevice_answer(platform, run),
        SourceOutput::IdeviceId { tool } => idevice_answer(tool),
        SourceOutput::GoIos { tool } => go_ios_answer(tool),
        SourceOutput::Android { adb, exists, basic, detail } => android_answer(
            adb,
            exists,
            basic,
            detail,
        ),
        SourceOutput::NoAdb { why } => Err(AdapterError::DependencyMissing(why)),
    }
}

/// A discovery after its sources were asked one after the other.
pub open spec fn scanned(outputs: Seq<SourceOutput>) -> ScanState
    decreases outputs.len(),
{
    if outputs.len() == 0 {
        fresh_scan()
    } else {
        scanned(outputs.drop_last()).asked(outputs.last())
    }
}

/// Whether a device has an identifier and is shown by the mask of it.
pub open spec fn shown_masked(d: UsbDevice<Seq<char>>) -> bool {
    d.raw_id.len() > 0 && d.id_masked == masked(d.raw_id)
}

/// Whether each device of a list has an identifier and is shown by the mask of it.
pub open spec fn all_masked(devices: Seq<UsbDevice<Seq<char>>>) -> bool {
    forall|i: int| 0 <= i < devices.len() ==> shown_masked(#[trigger] devices[i])
}

/// What the note on an Android source says that failed.
pub open spec fn android_note(output: SourceOutput) -> Seq<char> {
    match output {
        SourceOutput::NoAdb { why } => "Android（adb 定位）："@ + why,
        _ => source_label(UsbSource::Android) + source_answer(output)->Err_0.message_text(),
    }
}

proof fn lemma_collected_masked<A>(s: Seq<A>, f: spec_fn(A) -> Option<UsbDevice<Seq<char>>>)
    requires
        forall|a: A| #[trigger] f(a) is Some ==> shown_masked(f(a)->0),
    ensures
        all_masked(seqs::collect(s, f)),
{
    assert forall|i: int| 0 <= i < seqs::collect(s, f).len() implies shown_masked(
        #[trigger] seqs::collect(s, f)[i],
    ) by {
        seqs::lemma_collected_from(s, f, i);
        let j = choose|j: int|
            0 <= j < s.len() && f(#[trigger] s[j]) == Some(seqs::collect(s, f)[i]);
        assert(f(s[j]) is Some);
    }
}

proof fn lemma_walk_masked(v: Json)
    ensures
        all_masked(profiler_walk(v)),
    decreases v, v.breadth() + 2,
{
    match v {
        Json::Array(a) => {
            lemma_walk_all_masked(v, a.len());
        },
        Json::Object(o) => {
            lemma_walk_all_masked(v, o.len());
        },
        _ => {},
    }
}

proof fn lemma_walk_all_masked(v: Json, n: nat)
    ensures
        all_masked(profiler_walk_all(v, n)),
    decreases v, n + 1,
{
    if n > 0 {
        match v {
            Json::Array(a) => {
                if n <= a.len() {
                    lemma_walk_all_masked(v, (n - 1) as nat);
                    lemma_walk_masked(a[n - 1]);
                }
            },
            Json::Object(o) => {
                if n <= o.len() {
                    lemma_walk_all_masked(v, (n - 1) as nat);
                    lemma_walk_masked(o[n - 1].1);
                }
            },
            _ => {},
        }
    }
}

/// Whether each of the identifiers is a plausible one.
pub open spec fn all_valid(ids: Seq<Seq<char>>) -> bool {
    forall|i: int| 0 <= i < ids.len() ==> valid_id(#[trigger] ids[i])
}

proof fn lemma_ids_valid(ids: Seq<Seq<char>>, v: Json)
    requires
        all_valid(ids),
    ensures
        all_valid(with_ids(ids, v)),
    decreases v, v.breadth() + 2,
{
    match v {
        Json::Array(a) => {
            lemma_all_ids_valid(ids, v, a.len());
        },
        Json::Object(_) => {
            let own = with_member(
                with_member(
                    with_member(with_member(ids, v.get("udid"@)), v.get("UDID"@)),
                    v.get("serialNumber"@),
                ),
                v.get("serial_number"@),
            );
            let a = with_child(own, v, place(v, "deviceList"@));
            let b = with_child(a, v, place(v, "devices"@));
            let c = with_child(b, v, place(v, "DeviceList"@));
            lemma_child_ids_valid(own, v, place(v, "deviceList"@));
            lemma_child_ids_valid(a, v, place(v, "devices"@));
            lemma_child_ids_valid(b, v, place(v, "DeviceList"@));
            lemma_child_ids_valid(c, v, place(v, "properties"@));
        },
        _ => {},
    }
}

proof fn lemma_all_ids_valid(ids: Seq<Seq<char>>, v: Json, n: nat)
    requires
        all_valid(ids),
    ensures
        all_valid(with_all(ids, v, n)),
    decreases v, n + 1,
{
    match v {
        Json::Array(a) => {
            if 0 < n <= a.len() {
                lemma_all_ids_valid(ids, v, (n - 1) as nat);
                lemma_ids_valid(with_all(ids, v, (n - 1) as nat), a[n - 1]);
            }
        },
        _ => {},
    }
}

proof fn lemma_child_ids_valid(ids: Seq<Seq<char>>, v: Json, i: int)
    requires
        all_valid(ids),
    ensures
        all_valid(with_child(ids, v, i)),
    decreases v, 1int,
{
    match v {
        Json::Object(o) => {
            if 0 <= i < o.len() {
                lemma_ids_valid(ids, o[i].1);
            }
        },
        _ => {},
    }
}

/// Every device that a source lists, whatever its tool gave out, has an identifier and is shown
/// by the mask of it.
pub proof fn sources_mask_what_they_list(output: SourceOutput)
    ensures
        source_answer(output) matches Ok(found) ==> all_masked(found),
{
    match output {
        SourceOutput::Devicectl { platform, run, document } => {
            if source_answer(output) is Ok {
                match json::json_of_text(document->Ok_0) {
                    Some(v) => {
                        match json::get_in(v.get("result"@), "devices"@) {
                            Some(Json::Array(a)) => {
                                lemma_collected_masked(
                                    a,
                                    |d: Json| devicectl_record(d).device(),
                                );
                            },
                            _ => {},
                        }
                    },
                    None => {},
                }
            }
        },
        SourceOutput::SystemProfiler { raw } => {
            match json::json_of_text(raw) {
                Some(v) => {
                    lemma_walk_masked(v);
                },
                None => {},
            }
        },
        SourceOutput::Xcdevice { platform, run } => {
            if source_answer(output) is Ok {
                match json::json_of_text((run->Ok_0).stdout) {
                    Some(Json::Array(a)) => {
                        lemma_collected_masked(
                            a,
                            |d: Json|
                                xcdevice_device(
                                    d,
                                    lower_text(d.get("platform"@)),
                                    lower_text(d.get("interface"@)),
                                ),
                        );
                    },
                    _ => {},
                }
            }
        },
        SourceOutput::IdeviceId { tool } => {
            if source_answer(output) is Ok {
                let lines = text::lines_of((tool->0->Ok_0).stdout);
                let f = |l: Seq<char>| idevice_row(l);
                let ids = seqs::collect(lines, f);
                assert forall|i: int| 0 <= i < ids.len() implies (#[trigger] ids[i]).len() > 0 by {
                    seqs::lemma_collected_from(lines, f, i);
                }
            }
        },
        SourceOutput::GoIos { tool } => {
            if source_answer(output) is Ok {
                match json::json_of_text((tool->0->Ok_0).stdout) {
                    Some(v) => {
                        lemma_ids_valid(Seq::empty(), v);
                        let ids = with_ids(Seq::empty(), v);
                        assert forall|i: int| 0 <= i < ids.len() implies (#[trigger] ids[i]).len()
                            > 0 by {
                            assert(valid_id(ids[i]));
                        }
                    },
                    None => {},
                }
            }
        },
        SourceOutput::Android { adb, exists, basic, detail } => {
            if source_answer(output) is Ok {
                let out = (basic->Ok_0).stdout;
                let f = |l: Seq<char>| adb_row(l);
                let lines = table_lines(out);
                let rows = adb_rows(out);
                assert forall|i: int| 0 <= i < rows.len() implies (#[trigger] rows[i]).0.len()
                    > 0 by {
                    seqs::lemma_collected_from(lines, f, i);
                    let j = choose|j: int|
                        0 <= j < lines.len() && f(#[trigger] lines[j]) == Some(rows[i]);
                    text::lemma_words_are_runs(text::trimmed(lines[j]), 0);
                }
            }
        },
        SourceOutput::NoAdb { why } => {},
    }
}

proof fn lemma_merged_masked(
    devices: Seq<UsbDevice<Seq<char>>>,
    new: Seq<UsbDevice<Seq<char>>>,
)
    requires
        all_masked(devices),
        all_masked(new),
    ensures
        all_masked(merged_all(devices, new)),
    decreases new.len(),
{
    if new.len() > 0 {
        let front = new.drop_last();
        assert forall|i: int| 0 <= i < front.len() implies shown_masked(#[trigger] front[i]) by {
            assert(shown_masked(new[i]));
        }
        lemma_merged_masked(devices, front);
        assert(shown_masked(new[new.len() - 1]));
    }
}

/// However a discovery went, every device that it lists has an identifier and is shown by the
/// mask of it.
pub proof fn scans_list_masked_devices(outputs: Seq<SourceOutput>)
    ensures
        all_masked(scanned(outputs).devices),
    decreases outputs.len(),
{
    if outputs.len() > 0 {
        let before = scanned(outputs.drop_last());
        scans_list_masked_devices(outputs.drop_last());
        sources_mask_what_they_list(outputs.last());
        match source_answer(outputs.last()) {
            Ok(found) => {
                lemma_merged_masked(before.devices, found);
            },
            Err(_) => {},
        }
    }
}

/// A source that fails adds no device, wherever in a discovery it is asked.
pub proof fn failing_sources_add_no_device(outputs: Seq<SourceOutput>, output: SourceOutput)
    requires
        source_answer(output) is Err,
    ensures
        scanned(outputs.push(output)).devices == scanned(outputs).devices,
{
    assert(outputs.push(output).drop_last() =~= outputs);
}

/// Where Android devices were to be listed and could not, the discovery ends with a note that
/// says so, whatever is still asked.
pub proof fn failing_android_is_the_last_note(outputs: Seq<SourceOutput>, k: int)
    requires
        0 <= k < outputs.len(),
        scanned(outputs.take(k)).next == Some(UsbSource::Android),
        source_answer(outputs[k]) is Err,
    ensures
        scanned(outputs).next is None,
        scanned(outputs).notes == scanned(outputs.take(k)).notes.push(android_note(outputs[k])),
        scanned(outputs).notes.last() == android_note(outputs[k]),
    decreases outputs.len(),
{
    let front = outputs.drop_last();
    if k == front.len() {
        assert(outputs.take(k) =~= front);
    } else {
        assert(front.take(k) =~= outputs.take(k));
        failing_android_is_the_last_note(front, k);
    }
}

// ---------------------------------------------------------------------------
// From a masked identifier back to the raw one
// ---------------------------------------------------------------------------

/// The raw identifier of an iPhone that is shown as `masked_id`; nothing of any other device.
pub open spec fn if_shown_as(masked_id: Seq<char>) -> spec_fn(UsbDevice<Seq<char>>) -> Option<
    Seq<char>,
> {
    |d: UsbDevice<Seq<char>>|
        if d.kind is Iphone && d.id_masked == masked_id {
            Some(d.raw_id)
        } else {
            None
        }
}

/// The raw identifiers of the iPhones that are shown as `masked_id`.
pub open spec fn raw_ids_behind(devices: Seq<UsbDevice<Seq<char>>>, masked_id: Seq<char>) -> Seq<
    Seq<char>,
> {
    seqs::collect(devices, if_shown_as(masked_id))
}

/// The raw identifier of the one iPhone that is shown as `masked_id`.
pub fn resolve_ios_raw_id(devices: &Vec<UsbDevice>, masked_id: &str) -> (r: Result<
    String,
    AdapterError,
>)
    ensures
        ({
            let found = raw_ids_behind(views(devices@), masked_id@);
            match r {
                Ok(s) => found.len() == 1 && s@ == found[0],
                Err(e) => if found.len() == 0 {
                    e@ == AdapterError::IosUsbUnavailable(
                        "未找到与 "@ + masked_id@
                            + " 对应的已连接 iPhone UDID；请保持 USB 连接并解锁/信任此电脑"@,
                    )
                } else {
                    found.len() > 1 && e@ == AdapterError::IosUsbUnavailable(
                        "多个 iPhone 使用相同的脱敏标识 "@ + masked_id@
                            + "，请使用 PHONEBRIDGE_IOS_UDID 指定目标"@,
                    )
                },
            }
        }),
{
    let ghost f = if_shown_as(masked_id@);
    let ghost all = views(devices@);
    let mut found: Vec<String> = Vec::new();
    let mut i: usize = 0;
    proof {
        seqs::lemma_collect_ends(all, f);
        assert(text::texts(found@) =~= Seq::<Seq<char>>::empty());
    }
    while i < devices.len()
        invariant
            i <= devices@.len(),
            all == views(devices@),
            f == if_shown_as(masked_id@),
            text::texts(found@) == seqs::collect(all.take(i as int), f),
        decreases devices@.len() - i,
    {
        proof {
            seqs::lemma_collect_step(all, f, i as int);
            assert(all[i as int] == devices@[i as int]@);
        }
        let ghost before = found@;
        if is_same_kind(devices[i].kind, UsbDeviceKind::Iphone) && text::same(
            devices[i].id_masked.as_str(),
            masked_id,
        ) {
            let id = text::own(devices[i].raw_id.as_str());
            found.push(id);
            assert(text::texts(found@) =~= text::texts(before).push(id@));
        }
        i = i + 1;
    }
    proof {
        seqs::lemma_collect_ends(all, f);
        assert(text::texts(found@).len() == found@.len());
        if found@.len() > 0 {
            assert(text::texts(found@)[0] == found@[0]@);
        }
    }
    if found.len() == 1 {
        Ok(text::own(found[0].as_str()))
    } else if found.len() == 0 {
        Err(
            AdapterError::IosUsbUnavailable(
                text::cat3(
                    "未找到与 ",
                    masked_id,
                    " 对应的已连接 iPhone UDID；请保持 USB 连接并解锁/信任此电脑",
                ),
            ),
        )
    } else {
        Err(
            AdapterError::IosUsbUnavailable(
                text::cat3(
                    "多个 iPhone 使用相同的脱敏标识 ",
                    masked_id,
                    "，请使用 PHONEBRIDGE_IOS_UDID 指定目标",
                ),
            ),
        )
    }
}

/// Chooses where the Android debug bridge is.
pub fn resolve_adb(
    candidates: &Vec<ToolCandidate>,
    present: &Vec<bool>,
    shell: Option<String>,
) -> (r: Result<String, String>)
    requires
        present@.len() == candidates@.len(),
    ensures
        match adb::tool_at(candidates@, present@, shell) {
            Some(path) => r matches Ok(p) && p@ == path,
            None => r matches Err(e) && e@ == adb::not_found_text(
                "adb"@,
                "PHONEBRIDGE_ADB_PATH"@,
            ),
        },
{
    adb::resolve_tool(candidates, present, shell, "adb", "PHONEBRIDGE_ADB_PATH")
}

// ---------------------------------------------------------------------------
// Laws
// ---------------------------------------------------------------------------

/// An identifier of ASCII characters is shown by its last four; a short one is not shown at all.
pub proof fn identifiers_are_shown_by_their_end(id: Seq<char>)
    requires
        text::all_ascii(id),
    ensures
        id.len() <= 4 ==> masked(id) == "****"@,
        id.len() > 4 ==> masked(id) == "***"@ + id.skip(id.len() - 4),
{
    text::ascii_texts_are_cut_by_character(id, 4);
}

/// A row of `adb devices` reads back as the serial number and the state that stand on it.
pub proof fn adb_rows_read_back(serial: Seq<char>, gap: Seq<char>, state: Seq<char>)
    requires
        serial.len() > 0,
        state.len() > 0,
        gap.len() > 0,
        forall|i: int| 0 <= i < serial.len() ==> !text::is_space(#[trigger] serial[i]),
        forall|i: int| 0 <= i < state.len() ==> !text::is_space(#[trigger] state[i]),
        forall|i: int| 0 <= i < gap.len() ==> text::is_space(#[trigger] gap[i]),
        !text::stands_at(serial + gap + state, "List of"@, 0),
    ensures
        adb_row(serial + gap + state) == Some((serial, state)),
{
    let line = serial + gap + state;
    assert(line[0] == serial[0]);
    assert(line.last() == state[state.len() - 1]);
    text::inked_texts_are_not_trimmed(line);
    text::two_words_are_read_apart(serial, gap, state, Seq::empty());
    assert(line + Seq::<char>::empty() =~= line);
}

/// An Android phone is listed with the serial number and the state of its row, shown by the mask
/// of that number, and named by its model where that is known.
pub proof fn android_phones_are_listed_as_their_rows(
    run: ToolRun<Seq<char>>,
    detail: Seq<char>,
    i: int,
)
    requires
        run.success,
        0 <= i < adb_rows(run.stdout).len(),
    ensures
        android_listing(run, detail) matches Ok(all) && all.len() == adb_rows(run.stdout).len()
            && all[i].kind is Android && all[i].raw_id == adb_rows(run.stdout)[i].0 && all[i].state
            == adb_rows(run.stdout)[i].1 && all[i].id_masked == masked(all[i].raw_id) && (vendor_of(
            detail,
            all[i].raw_id,
        ) is Some ==> Some(all[i].name) == vendor_of(detail, all[i].raw_id)),
{
}

/// A source answers with a list exactly where its tool is there, ran on a platform that has it,
/// and succeeded; otherwise it says why not.
pub proof fn sources_answer_where_their_tool_succeeded(
    platform: HostPlatform,
    run: Result<ToolRun<Seq<char>>, Seq<char>>,
    document: Result<Seq<char>, Seq<char>>,
    tool: Option<Result<ToolRun<Seq<char>>, Seq<char>>>,
    adb: Seq<char>,
    exists: bool,
    detail: Seq<char>,
)
    ensures
        ({
            let good = run is Ok && run->Ok_0.success;
            let ran = tool is Some && tool->Some_0 is Ok && tool->Some_0->Ok_0.success;
            &&& devicectl_answer(platform, run, document) is Ok <==> platform is MacOs && good
                && document is Ok
            &&& xcdevice_answer(platform, run) is Ok <==> platform is MacOs && good
            &&& idevice_answer(tool) is Ok <==> ran
            &&& go_ios_answer(tool) is Ok <==> ran
            &&& android_answer(adb, exists, run, detail) is Ok <==> exists && good
            &&& !(platform is MacOs) ==> (devicectl_answer(platform, run, document) matches Err(
                AdapterError::UnsupportedPlatform(_),
            ))
            &&& !exists ==> (android_answer(adb, exists, run, detail) matches Err(
                AdapterError::DependencyMissing(_),
            ))
            &&& tool is None ==> (idevice_answer(tool) matches Err(
                AdapterError::DependencyMissing(_),
            )) && (go_ios_answer(tool) matches Err(AdapterError::DependencyMissing(_)))
        }),
{
}

/// An entry of `devicectl` is listed only as an iPhone that is real, there and on a cable: not a
/// simulated one, not one that names a transport other than a cable, not one that says it is
/// away, and not one without an identifier.
pub proof fn only_real_phones_on_a_cable_are_listed(r: DevicectlRecord<Seq<char>>)
    ensures
        r.device() matches Some(d) ==> d.kind is Iphone && d.raw_id == r.id && d.raw_id.len() > 0
            && d.id_masked == masked(r.id) && r.name.is_prefix_of(d.name),
        r.reality == "simulator"@ || r.reality == "virtual"@ ==> r.device() is None,
        r.transport.len() > 0 && !text::occurs(r.transport, "wired"@) && !text::occurs(
            r.transport,
            "usb"@,
        ) && !text::occurs(r.transport, "cable"@) ==> r.device() is None,
        text::occurs(r.legacy_state, "unavailable"@) || text::occurs(r.legacy_state, "offline"@)
            || text::occurs(r.legacy_state, "disconnected"@) ==> r.device() is None,
        r.id.len() == 0 ==> r.device() is None,
        r.platform.len() > 0 && !text::occurs(r.platform, "ios"@) && !text::occurs(
            r.platform,
            "iphone"@,
        ) && !text::occurs(r.platform, "ipad"@) ==> r.device() is None,
        r.device_type.len() > 0 && !text::occurs(r.device_type, "iphone"@) && !text::occurs(
            r.device_type,
            "ipad"@,
        ) ==> r.device() is None,
{
    if r.device() is Some {
        let name = r.device()->Some_0.name;
        assert(name.subrange(0, r.name.len() as int) =~= r.name);
    }
}

/// An iPhone on a cable whose record rules nothing out is listed: as connected where it is
/// paired, and as not authorized where it says that it is not.
pub proof fn phones_on_a_cable_are_listed(r: DevicectlRecord<Seq<char>>)
    requires
        r.id.len() > 0,
        r.reality == "physical"@,
        r.platform == "ios"@,
        r.device_type == "iphone"@,
        r.transport == "wired"@,
        r.legacy_state.len() == 0,
    ensures
        r.device() matches Some(d) && (r.pairing == "paired"@ || r.pairing.len() == 0 ==> d.state
            == "connected"@) && (r.pairing.len() > 0 && r.pairing != "paired"@ ==> d.state
            == "unauthorized"@),
{
    reveal_strlit("physical");
    reveal_strlit("simulator");
    reveal_strlit("virtual");
    reveal_strlit("connected");
    reveal_strlit("unavailable");
    reveal_strlit("offline");
    reveal_strlit("disconnected");
    assert("physical"@.len() == 8 && "simulator"@.len() == 9 && "virtual"@.len() == 7);
    assert(text::stands_at(r.platform, "ios"@, 0)) by {
        assert(r.platform.subrange(0, "ios"@.len() as int) =~= "ios"@);
    }
    assert(text::stands_at(r.device_type, "iphone"@, 0)) by {
        assert(r.device_type.subrange(0, "iphone"@.len() as int) =~= "iphone"@);
    }
    assert(text::stands_at(r.transport, "wired"@, 0)) by {
        assert(r.transport.subrange(0, "wired"@.len() as int) =~= "wired"@);
    }
}

/// An entry of `xcdevice` is listed exactly where it has an identifier, is on USB, is an iPhone
/// or iPad, and is neither simulated nor ignored nor away; it then counts as connected.
pub proof fn xcdevice_lists_real_phones_on_usb(d: Json, platform: Seq<char>, interface: Seq<char>)
    ensures
        ({
            let r = xcdevice_device(d, platform, interface);
            let id = d.get("identifier"@);
            &&& r is Some <==> (id matches Some(Json::Text(s)) && s.len() > 0) && text::occurs(
                interface,
                "usb"@,
            ) && (text::occurs(platform, "iphoneos"@) || text::occurs(platform, "ipad"@)) && d.get(
                "simulator"@,
            ) != Some(Json::Bool(true)) && d.get("ignored"@) != Some(Json::Bool(true)) && d.get(
                "available"@,
            ) != Some(Json::Bool(false))
            &&& r matches Some(x) ==> id == Some(Json::Text(x.raw_id)) && x.id_masked == masked(
                x.raw_id,
            ) && x.kind is Iphone && x.state == "connected"@
        }),
{
    reveal_strlit("");
}

proof fn lemma_ids_kept(ids: Seq<Seq<char>>, v: Json)
    requires
        ids.no_duplicates(),
    ensures
        with_ids(ids, v).no_duplicates(),
        ids.is_prefix_of(with_ids(ids, v)),
    decreases v, v.breadth() + 3,
{
    match v {
        Json::Array(a) => {
            lemma_all_ids_kept(ids, v, a.len());
        },
        Json::Text(s) => {
            lemma_id_kept(ids, s);
        },
        Json::Object(_) => {
            lemma_object_ids_kept(ids, v);
        },
        _ => {
            assert(ids.subrange(0, ids.len() as int) =~= ids);
        },
    }
}

proof fn lemma_id_kept(ids: Seq<Seq<char>>, id: Seq<char>)
    requires
        ids.no_duplicates(),
    ensures
        with_id(ids, id).no_duplicates(),
        ids.is_prefix_of(with_id(ids, id)),
        valid_id(id) ==> with_id(ids, id).contains(id),
{
    let r = with_id(ids, id);
    assert(r.subrange(0, ids.len() as int) =~= ids);
    if valid_id(id) && !ids.contains(id) {
        assert(r[ids.len() as int] == id);
    }
}

proof fn lemma_member_kept(ids: Seq<Seq<char>>, v: Option<Json>)
    requires
        ids.no_duplicates(),
    ensures
        with_member(ids, v).no_duplicates(),
        ids.is_prefix_of(with_member(ids, v)),
        v matches Some(Json::Text(s)) ==> valid_id(s) ==> with_member(ids, v).contains(s),
{
    assert(ids.subrange(0, ids.len() as int) =~= ids);
    match v {
        Some(Json::Text(s)) => {
            lemma_id_kept(ids, s);
        },
        _ => {},
    }
}

proof fn lemma_prefixes(a: Seq<Seq<char>>, b: Seq<Seq<char>>, c: Seq<Seq<char>>)
    requires
        a.is_prefix_of(b),
        b.is_prefix_of(c),
    ensures
        a.is_prefix_of(c),
        forall|x: Seq<char>| #[trigger] a.contains(x) ==> c.contains(x),
{
    assert(c.subrange(0, a.len() as int) =~= b.subrange(0, a.len() as int)) by {
        assert forall|i: int| 0 <= i < a.len() implies c[i] == b[i] by {
            assert(c.subrange(0, b.len() as int)[i] == b[i]);
        }
    }
    assert forall|x: Seq<char>| #[trigger] a.contains(x) implies c.contains(x) by {
        let i = choose|i: int| 0 <= i < a.len() && a[i] == x;
        assert(c.subrange(0, a.len() as int)[i] == a[i]);
        assert(c[i] == x);
    }
}

proof fn lemma_object_ids_kept(ids: Seq<Seq<char>>, v: Json)
    requires
        ids.no_duplicates(),
        v is Object,
    ensures
        with_ids(ids, v).no_duplicates(),
        ids.is_prefix_of(with_ids(ids, v)),
        v.get("udid"@) matches Some(Json::Text(s)) ==> valid_id(s) ==> with_ids(ids, v).contains(s),
        v.get("serialNumber"@) matches Some(Json::Text(s)) ==> valid_id(s) ==> with_ids(
            ids,
            v,
        ).contains(s),
    decreases v, v.breadth() + 2,
{
    let m1 = with_member(ids, v.get("udid"@));
    let m2 = with_member(m1, v.get("UDID"@));
    let m3 = with_member(m2, v.get("serialNumber"@));
    let own = with_member(m3, v.get("serial_number"@));
    lemma_member_kept(ids, v.get("udid"@));
    lemma_member_kept(m1, v.get("UDID"@));
    lemma_member_kept(m2, v.get("serialNumber"@));
    lemma_member_kept(m3, v.get("serial_number"@));
    let a = with_child(own, v, place(v, "deviceList"@));
    let b = with_child(a, v, place(v, "devices"@));
    let c = with_child(b, v, place(v, "DeviceList"@));
    let d = with_child(c, v, place(v, "properties"@));
    lemma_child_ids_kept(own, v, place(v, "deviceList"@));
    lemma_child_ids_kept(a, v, place(v, "devices"@));
    lemma_child_ids_kept(b, v, place(v, "DeviceList"@));
    lemma_child_ids_kept(c, v, place(v, "properties"@));
    lemma_prefixes(c, d, d);
    lemma_prefixes(b, c, d);
    lemma_prefixes(a, b, d);
    lemma_prefixes(own, a, d);
    lemma_prefixes(m3, own, d);
    lemma_prefixes(m2, m3, d);
    lemma_prefixes(m1, m2, d);
    lemma_prefixes(ids, m1, d);
}

proof fn lemma_all_ids_kept(ids: Seq<Seq<char>>, v: Json, n: nat)
    requires
        ids.no_duplicates(),
    ensures
        with_all(ids, v, n).no_duplicates(),
        ids.is_prefix_of(with_all(ids, v, n)),
    decreases v, n + 1,
{
    assert(ids.subrange(0, ids.len() as int) =~= ids);
    match v {
        Json::Array(a) => {
            if 0 < n <= a.len() {
                let front = with_all(ids, v, (n - 1) as nat);
                lemma_all_ids_kept(ids, v, (n - 1) as nat);
                lemma_ids_kept(front, a[n - 1]);
                lemma_prefixes(ids, front, with_all(ids, v, n));
            }
        },
        _ => {},
    }
}

proof fn lemma_child_ids_kept(ids: Seq<Seq<char>>, v: Json, i: int)
    requires
        ids.no_duplicates(),
    ensures
        with_child(ids, v, i).no_duplicates(),
        ids.is_prefix_of(with_child(ids, v, i)),
    decreases v, 1int,
{
    assert(ids.subrange(0, ids.len() as int) =~= ids);
    match v {
        Json::Object(o) => {
            if 0 <= i < o.len() {
                lemma_ids_kept(ids, o[i].1);
            }
        },
        _ => {},
    }
}

/// A document of `ios list` adds each identifier once and takes none away; the identifier that an
/// object gives under `udid` or `serialNumber` is among them where it is a plausible one.
pub proof fn identifiers_are_listed_once(ids: Seq<Seq<char>>, v: Json)
    requires
        ids.no_duplicates(),
    ensures
        with_ids(ids, v).no_duplicates(),
        ids.is_prefix_of(with_ids(ids, v)),
        v.get("udid"@) matches Some(Json::Text(s)) ==> valid_id(s) ==> with_ids(ids, v).contains(s),
        v.get("serialNumber"@) matches Some(Json::Text(s)) ==> valid_id(s) ==> with_ids(
            ids,
            v,
        ).contains(s),
{
    lemma_ids_kept(ids, v);
    if v is Object {
        lemma_object_ids_kept(ids, v);
    }
}

/// What a second entry of a phone adds: a phone that one of the two calls connected is connected,
/// a name that is only a stand-in gives way to a real one and a real one stays, and what
/// identifies the phone stays.
pub proof fn second_entries_improve_the_first(
    old: UsbDevice<Seq<char>>,
    new: UsbDevice<Seq<char>>,
)
    ensures
        ({
            let r = improved(old, new);
            &&& r.kind == old.kind && r.raw_id == old.raw_id && r.id_masked == old.id_masked
            &&& r.state == "connected"@ <==> old.state == "connected"@ || new.state == "connected"@
            &&& new.state != "connected"@ ==> r.state == old.state
            &&& old.name != "iPhone"@ && old.name != "Android 设备"@ ==> r.name == old.name
            &&& (old.name == "iPhone"@ || old.name == "Android 设备"@) && new.name.len() > 0
                ==> r.name == new.name
            &&& new.name.len() == 0 ==> r.name == old.name
        }),
{
}

/// Merging an entry changes no entry of another phone, keeps the order, and adds the entry at the
/// end exactly where its phone was not in the list.
pub proof fn merging_changes_only_the_same_phone(
    devices: Seq<UsbDevice<Seq<char>>>,
    new: UsbDevice<Seq<char>>,
    i: int,
)
    ensures
        ({
            let r = merged(devices, new);
            let known = exists|j: int|
                0 <= j < devices.len() && same_device(#[trigger] devices[j], new);
            &&& known ==> r.len() == devices.len()
            &&& !known ==> r == devices.push(new)
            &&& 0 <= i < devices.len() && !same_device(devices[i], new) ==> r[i] == devices[i]
            &&& 0 <= i < devices.len() ==> same_device(r[i], devices[i])
        }),
{
    let f = |d: UsbDevice<Seq<char>>| same_device(d, new);
    let at = seqs::first_from(devices, f, 0);
    seqs::lemma_first_from(devices, f, 0);
    if at < devices.len() {
        assert(f(devices[at]));
        assert(same_device(devices[at], new));
    } else {
        assert forall|j: int| 0 <= j < devices.len() implies !same_device(
            #[trigger] devices[j],
            new,
        ) by {
            assert(!f(devices[j]));
        }
    }
}

/// The sources are asked in their order, Android last: both that list real devices always, and
/// each of the others only while no iPhone is known.
pub proof fn sources_are_asked_in_order(devices: Seq<UsbDevice<Seq<char>>>)
    ensures
        source_after(UsbSource::Devicectl, devices) == Some(UsbSource::SystemProfiler),
        source_after(UsbSource::Android, devices) is None,
        has_iphone(devices) ==> source_after(UsbSource::SystemProfiler, devices) == Some(
            UsbSource::Android,
        ) && source_after(UsbSource::Xcdevice, devices) == Some(UsbSource::Android) && source_after(
            UsbSource::IdeviceId,
            devices,
        ) == Some(UsbSource::Android),
        !has_iphone(devices) ==> source_after(UsbSource::SystemProfiler, devices) == Some(
            UsbSource::Xcdevice,
        ) && source_after(UsbSource::Xcdevice, devices) == Some(UsbSource::IdeviceId)
            && source_after(UsbSource::IdeviceId, devices) == Some(UsbSource::GoIos),
        source_after(UsbSource::GoIos, devices) == Some(UsbSource::Android),
        fresh_scan().next == Some(UsbSource::Devicectl) && fresh_scan().devices.len() == 0,
{
}

/// The phones behind a mask are exactly the iPhones that are shown by it.
pub proof fn masks_lead_to_the_phones_shown_by_them(
    devices: Seq<UsbDevice<Seq<char>>>,
    masked_id: Seq<char>,
    id: Seq<char>,
)
    ensures
        raw_ids_behind(devices, masked_id).contains(id) <==> exists|i: int|
            0 <= i < devices.len() && (#[trigger] devices[i]).kind is Iphone && devices[i].id_masked
                == masked_id && devices[i].raw_id == id,
{
    let f = if_shown_as(masked_id);
    seqs::lemma_collect_contains(devices, f, id);
    if raw_ids_behind(devices, masked_id).contains(id) {
        let j = choose|j: int| 0 <= j < devices.len() && f(#[trigger] devices[j]) == Some(id);
        assert(devices[j].kind is Iphone && devices[j].id_masked == masked_id && devices[j].raw_id
            == id);
    }
    if exists|i: int|
        0 <= i < devices.len() && (#[trigger] devices[i]).kind is Iphone && devices[i].id_masked
            == masked_id && devices[i].raw_id == id {
        let i = choose|i: int|
            0 <= i < devices.len() && (#[trigger] devices[i]).kind is Iphone && devices[i].id_masked
                == masked_id && devices[i].raw_id == id;
        assert(f(devices[i]) == Some(id));
    }
}

/// What `devicectl` says of a phone is read from where it stands; where it says something in two
/// ways, the newer one counts.
pub proof fn records_are_read_from_their_members(
    d: Json,
    device: Json,
    hardware: Json,
    connection: Json,
    s: Seq<char>,
)
    requires
        d.get("deviceProperties"@) == Some(device),
        d.get("hardwareProperties"@) == Some(hardware),
        d.get("connectionProperties"@) == Some(connection),
    ensures
        ({
            let r = devicectl_record(d);
            let t = Some(Json::Text(s));
            &&& device.get("name"@) == t ==> r.name == s
            &&& device.get("name"@) is None && d.get("name"@) == t ==> r.name == s
            &&& hardware.get("marketingName"@) == t ==> r.model == s
            &&& hardware.get("udid"@) == t ==> r.id == s
            &&& hardware.get("udid"@) is None && d.get("identifier"@) == t ==> r.id == s
            &&& hardware.get("udid"@) is None && d.get("identifier"@) is None ==> r.id == ""@
            &&& hardware.get("reality"@) == t ==> r.reality == text::unicode_lowercase(s)
            &&& hardware.get("platform"@) == t ==> r.platform == text::unicode_lowercase(s)
            &&& hardware.get("deviceType"@) == t ==> r.device_type == text::unicode_lowercase(s)
            &&& connection.get("transportType"@) == t ==> r.transport == text::unicode_lowercase(s)
            &&& connection.get("pairingState"@) == t ==> r.pairing == text::unicode_lowercase(s)
            &&& device.get("bootState"@) == t ==> r.boot_state == text::unicode_lowercase(s)
            &&& d.get("state"@) == t ==> r.legacy_state == text::unicode_lowercase(s)
        }),
{
}

/// A phone in the overview of the system is an iPhone or an iPad by its name and has a serial
/// number, by which it is known.
pub proof fn the_overview_names_phones_with_a_serial_number(v: Json, name: Seq<char>, serial: Seq<char>)
    requires
        v.get("_name"@) == Some(Json::Text(name)),
        v.get("serial_number"@) == Some(Json::Text(serial)),
    ensures
        profiler_device(v) is Some <==> serial.len() > 0 && (text::occurs(name, "iPhone"@)
            || text::occurs(name, "iPad"@)),
        profiler_device(v) matches Some(d) ==> d.kind is Iphone && d.raw_id == serial && d.state
            == "connected"@ && d.id_masked == masked(serial) && d.name == text::trimmed(name),
{
    reveal_strlit("iPhone");
    reveal_strlit("iPad");
    if name.len() == 0 {
        if text::occurs(name, "iPhone"@) {
            let i = choose|i: int| text::stands_at(name, "iPhone"@, i);
            assert(i + 6 <= 0);
        }
        if text::occurs(name, "iPad"@) {
            let i = choose|i: int| text::stands_at(name, "iPad"@, i);
            assert(i + 4 <= 0);
        }
    }
}

/// The overview is read through: a phone comes before those below it, and nothing below any of
/// the members is left out.
pub proof fn the_overview_is_read_through(v: Json, i: int)
    ensures
        v matches Json::Array(a) ==> 0 <= i < a.len() ==> forall|d: UsbDevice<Seq<char>>|
            #[trigger] profiler_walk(a[i]).contains(d) ==> profiler_walk(v).contains(d),
        v matches Json::Object(o) ==> 0 <= i < o.len() ==> forall|d: UsbDevice<Seq<char>>|
            #[trigger] profiler_walk(o[i].1).contains(d) ==> profiler_walk(v).contains(d),
        v is Object ==> (profiler_device(v) matches Some(d) ==> profiler_walk(v).len() > 0
            && profiler_walk(v)[0] == d),
        !(v is Object) && !(v is Array) ==> profiler_walk(v).len() == 0,
{
    match v {
        Json::Array(a) => {
            if 0 <= i < a.len() {
                assert forall|d: UsbDevice<Seq<char>>| #[trigger] profiler_walk(a[i]).contains(
                    d,
                ) implies profiler_walk(v).contains(d) by {
                    lemma_walk_keeps(v, i, a.len(), d);
                }
            }
        },
        Json::Object(o) => {
            if 0 <= i < o.len() {
                assert forall|d: UsbDevice<Seq<char>>| #[trigger] profiler_walk(
                    o[i].1,
                ).contains(d) implies profiler_walk(v).contains(d) by {
                    lemma_walk_keeps(v, i, o.len(), d);
                    let below = profiler_walk_all(v, o.len());
                    let k = choose|k: int| 0 <= k < below.len() && below[k] == d;
                    match profiler_device(v) {
                        Some(x) => {
                            assert(profiler_walk(v)[k + 1] == d);
                        },
                        None => {
                            assert(profiler_walk(v)[k] == d);
                        },
                    }
                }
            }
        },
        _ => {},
    }
}

proof fn lemma_walk_keeps(v: Json, i: int, n: nat, d: UsbDevice<Seq<char>>)
    requires
        0 <= i < n,
        v is Array || v is Object,
        v matches Json::Array(a) ==> n <= a.len() && profiler_walk(a[i]).contains(d),
        v matches Json::Object(o) ==> n <= o.len() && profiler_walk(o[i].1).contains(d),
    ensures
        profiler_walk_all(v, n).contains(d),
    decreases n,
{
    let m = (n - 1) as nat;
    let head = profiler_walk_all(v, m);
    let tail = match v {
        Json::Array(a) => profiler_walk(a[n - 1]),
        Json::Object(o) => profiler_walk(o[n - 1].1),
        _ => Seq::empty(),
    };
    let all = profiler_walk_all(v, n);
    assert(all == head + tail);
    if i < m {
        lemma_walk_keeps(v, i, m, d);
        let k = choose|k: int| 0 <= k < head.len() && head[k] == d;
        assert(all[k] == d);
    } else {
        let k = choose|k: int| 0 <= k < tail.len() && tail[k] == d;
        assert(all[head.len() + k] == d);
    }
}

/// The model of a phone is the first word of its line that says so.
pub proof fn models_are_read_from_their_word(words: Seq<Seq<char>>, i: int, model: Seq<char>, from: int)
    requires
        0 <= from <= i < words.len(),
        words[i] == "model:"@ + model,
        forall|j: int| from <= j < i ==> !text::stands_at(#[trigger] words[j], "model:"@, 0),
    ensures
        model_word(words, from) == Some(model),
    decreases i - from,
{
    if from < i {
        assert(!text::stands_at(words[from], "model:"@, 0));
        models_are_read_from_their_word(words, i, model, from + 1);
    } else {
        let h = "model:"@;
        assert((h + model).subrange(0, h.len() as int) =~= h);
        assert((h + model).skip(h.len() as int) =~= model);
    }
}

/// Phones are merged one after the other, and none of them is left out.
pub proof fn phones_are_merged_one_by_one(
    devices: Seq<UsbDevice<Seq<char>>>,
    new: Seq<UsbDevice<Seq<char>>>,
    d: UsbDevice<Seq<char>>,
)
    ensures
        merged_all(devices, Seq::empty()) == devices,
        merged_all(devices, new.push(d)) == merged(merged_all(devices, new), d),
{
    assert(new.push(d).drop_last() =~= new);
}

/// The rows of a table are the lines below its heading.
pub proof fn rows_stand_below_the_heading(heading: Seq<char>, rest: Seq<char>)
    requires
        heading.len() > 0,
        forall|i: int| 0 <= i < heading.len() ==> #[trigger] heading[i] != '\n',
        heading.last() != '\r',
    ensures
        table_lines(heading + seq!['\n'] + rest) == text::lines_of(rest),
        table_lines(heading).len() == 0,
{
    text::lines_are_read_one_by_one(heading, rest);
    assert((seq![heading] + text::lines_of(rest)).skip(1) =~= text::lines_of(rest));
}

} // verus!
