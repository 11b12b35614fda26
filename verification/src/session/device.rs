//! The session of one device: its state, its picture, its input and its log.
//!
//! A session decides what happens next and keeps what it needs for that. The work outside
//! (processes, sockets, Bluetooth, the clipboard) is done by the program, which tells the
//! session what came of it. What a session has to tell waits in its outbox.
use vstd::prelude::*;

use crate::integrations::adb;
use crate::integrations::adb::AdbDevice;
use crate::integrations::diagnostics;
use crate::integrations::hid_adapter::{
    HidStatus, INPUT_REPORT_BOOT_KEYBOARD, INPUT_REPORT_BOOT_MOUSE, INPUT_REPORT_KEYBOARD,
    INPUT_REPORT_MOUSE,
};
use crate::integrations::mirror_adapter::MirrorEvent;
use crate::integrations::{AdapterError, HostPlatform};
use crate::session::manager;
use crate::session::manager::{
    keep_newest, LogEntry, Notice, SessionError, SessionPreferences, SessionStateView,
};
use crate::session::state;
use crate::session::state::{
    derive_control_state, derive_mirror_state, InvalidTransition, SessionEvent,
    SessionStateMachine, SessionStateName,
};
use crate::text;

verus! {

/// The kind of a device.
#[derive(Debug, Clone, Copy, PartialEq, Eq, Structural)]
pub enum DeviceKind {
    Iphone,
    Android,
}

impl DeviceKind {
    pub open spec fn text(self) -> Seq<char> {
        match self {
            DeviceKind::Iphone => "iphone"@,
            DeviceKind::Android => "android"@,
        }
    }

    /// The name of the kind.
    pub fn as_str(self) -> (r: &'static str)
        ensures
            r@ == self.text(),
    {
        match self {
            DeviceKind::Iphone => "iphone",
            DeviceKind::Android => "android",
        }
    }

    /// The kind of a name.
    pub fn from_str(s: &str) -> (r: Option<DeviceKind>)
        ensures
            r == kind_of(s@),
    {
        if text::same(s, "iphone") {
            Some(DeviceKind::Iphone)
        } else if text::same(s, "android") {
            Some(DeviceKind::Android)
        } else {
            None
        }
    }
}

/// The kind of a name.
pub open spec fn kind_of(name: Seq<char>) -> Option<DeviceKind> {
    if name == "iphone"@ {
        Some(DeviceKind::Iphone)
    } else if name == "android"@ {
        Some(DeviceKind::Android)
    } else {
        None
    }
}

/// Kinds have different names, and the name of a kind gives it back.
pub proof fn kinds_have_their_own_names(a: DeviceKind, b: DeviceKind)
    ensures
        a.text() == b.text() ==> a == b,
        kind_of(a.text()) == Some(a),
{
    reveal_strlit("iphone");
    reveal_strlit("android");
    assert("iphone"@.len() != "android"@.len());
}

/// A kind is read from its own name alone.
pub proof fn names_tell_the_phones_apart(name: Seq<char>)
    ensures
        kind_of(name) == Some(DeviceKind::Iphone) <==> name == "iphone"@,
        kind_of(name) == Some(DeviceKind::Android) <==> name == "android"@,
        kind_of(name) matches Some(k) ==> k.text() == name,
{
    reveal_strlit("iphone");
    reveal_strlit("android");
    assert("iphone"@.len() != "android"@.len());
}

/// Whether the phone has subscribed to a keyboard report.
pub open spec fn keyboard_subscribed(mask: u8) -> bool {
    mask & 2 != 0 || mask & 8 != 0
}

/// Whether the phone has subscribed to a mouse report.
pub open spec fn mouse_subscribed(mask: u8) -> bool {
    mask & 1 != 0 || mask & 4 != 0
}

/// Whether the phone has subscribed to a keyboard report.
pub fn keyboard_input_ready(input_report_mask: u8) -> (r: bool)
    ensures
        r == keyboard_subscribed(input_report_mask),
{
    input_report_mask & INPUT_REPORT_KEYBOARD != 0 || input_report_mask
        & INPUT_REPORT_BOOT_KEYBOARD != 0
}

pub(crate) fn mouse_input_ready(input_report_mask: u8) -> (r: bool)
    ensures
        r == mouse_subscribed(input_report_mask),
{
    input_report_mask & INPUT_REPORT_MOUSE != 0 || input_report_mask & INPUT_REPORT_BOOT_MOUSE
        != 0
}

/// How often a lost picture is started again before the session gives up.
pub const RECONNECT_MAX_ATTEMPTS: u32 = 5;

/// How long to wait before the `attempt`-th start: one second, then twice as long each time,
/// but at most sixteen.
pub open spec fn delay_before(attempt: u32) -> int {
    if attempt <= 1 {
        1000
    } else if attempt == 2 {
        2000
    } else if attempt == 3 {
        4000
    } else if attempt == 4 {
        8000
    } else {
        16000
    }
}

/// How long to wait before the `attempt`-th start, in milliseconds.
pub fn reconnect_delay_ms(attempt: u32) -> (r: u64)
    ensures
        r == delay_before(attempt),
{
    if attempt <= 1 {
        1000
    } else if attempt == 2 {
        2000
    } else if attempt == 3 {
        4000
    } else if attempt == 4 {
        8000
    } else {
        16000
    }
}

/// The wait never gets shorter, doubles from one attempt to the next until it is at its
/// longest, and is never longer than sixteen seconds.
pub proof fn waits_grow_to_a_limit(a: u32, b: u32)
    requires
        a <= b,
    ensures
        1000 <= delay_before(a) <= delay_before(b) <= 16000,
        1 <= a < 5 && b == a + 1 ==> delay_before(b) == 2 * delay_before(a),
{
}

/// What takes the input of a session.
#[derive(Debug, Clone, Copy, PartialEq, Eq, Structural)]
pub enum InputKind {
    Absent,
    Ble,
    IosUsb,
    Scrcpy,
}

/// The session of one device.
pub struct DeviceSession {
    pub id: String,
    pub kind: DeviceKind,
    pub uxplay_port: u16,
    pub state: SessionStateMachine,
    pub since: String,
    pub prefs: SessionPreferences,
    /// Whether the receiver of an iPhone runs.
    pub mirror: bool,
    /// The size of the picture of the running screen of an Android phone.
    pub screen: Option<(u32, u32)>,
    pub input: InputKind,
    pub android_serial: Option<String>,
    pub adb_drag: bool,
    pub ios_drag: bool,
    /// Where the finger is on an Android phone.
    pub android_pointer: Option<(u32, u32)>,
    pub error_log: Vec<LogEntry>,
    /// Changes when control ends, so that a paste under way can tell.
    pub paste_token: u64,
    pub last_error: Option<SessionError>,
    /// The size of the picture, once it is known.
    pub last_metadata: Option<(u32, u32)>,
    pub frame_sink: bool,
    pub frame_test_mode: bool,
    pub reconnect_attempts: u32,
    /// Whether a reconnection is under way.
    pub reconnect_armed: bool,
    pub outbox: Vec<Notice>,
}

/// What a session holds.
pub struct SessionModel {
    pub id: Seq<char>,
    pub kind: DeviceKind,
    pub uxplay_port: u16,
    pub state: SessionStateName,
    pub since: Seq<char>,
    pub prefs: SessionPreferences,
    pub mirror: bool,
    pub screen: Option<(u32, u32)>,
    pub input: InputKind,
    pub android_serial: Option<Seq<char>>,
    pub adb_drag: bool,
    pub ios_drag: bool,
    pub android_pointer: Option<(u32, u32)>,
    pub error_log: Seq<diagnostics::LogEntry<Seq<char>>>,
    pub paste_token: u64,
    pub last_error: Option<SessionError<Seq<char>>>,
    pub last_metadata: Option<(u32, u32)>,
    pub frame_sink: bool,
    pub frame_test_mode: bool,
    pub reconnect_attempts: u32,
    pub reconnect_armed: bool,
    pub outbox: Seq<Notice<Seq<char>>>,
}

impl View for DeviceSession {
    type V = SessionModel;

    open spec fn view(&self) -> SessionModel {
        SessionModel {
            id: self.id@,
            kind: self.kind,
            uxplay_port: self.uxplay_port,
            state: self.state.state,
            since: self.since@,
            prefs: self.prefs,
            mirror: self.mirror,
            screen: self.screen,
            input: self.input,
            android_serial: text::opt_text(self.android_serial),
            adb_drag: self.adb_drag,
            ios_drag: self.ios_drag,
            android_pointer: self.android_pointer,
            error_log: diagnostics::entries(self.error_log@),
            paste_token: self.paste_token,
            last_error: match self.last_error {
                Some(e) => Some(e@),
                None => None,
            },
            last_metadata: self.last_metadata,
            frame_sink: self.frame_sink,
            frame_test_mode: self.frame_test_mode,
            reconnect_attempts: self.reconnect_attempts,
            reconnect_armed: self.reconnect_armed,
            outbox: manager::notices(self.outbox@),
        }
    }
}

/// A new session.
pub open spec fn fresh(id: Seq<char>, kind: DeviceKind, port: u16, at: Seq<char>) -> SessionModel {
    SessionModel {
        id,
        kind,
        uxplay_port: port,
        state: SessionStateName::Idle,
        since: at,
        prefs: manager::default_preferences(),
        mirror: false,
        screen: None,
        input: InputKind::Absent,
        android_serial: None,
        adb_drag: false,
        ios_drag: false,
        android_pointer: None,
        error_log: Seq::empty(),
        paste_token: 0,
        last_error: None,
        last_metadata: None,
        frame_sink: false,
        frame_test_mode: false,
        reconnect_attempts: 0,
        reconnect_armed: false,
        outbox: Seq::empty(),
    }
}

/// How many errors a session keeps.
pub const ERROR_LOG_LIMIT: usize = 200;

/// An entry of a log.
pub open spec fn entry(
    at: Seq<char>,
    level: Seq<char>,
    code: Seq<char>,
    message: Seq<char>,
) -> diagnostics::LogEntry<Seq<char>> {
    diagnostics::LogEntry { at, level, code, message }
}

/// A size in words.
pub open spec fn size_text(width: u32, height: u32) -> Seq<char> {
    text::dec(width as nat) + "x"@ + text::dec(height as nat)
}

pub(crate) fn say_size(width: u32, height: u32) -> (r: String)
    ensures
        r@ == size_text(width, height),
{
    text::cat3(
        text::decimal(width as u64).as_str(),
        "x",
        text::decimal(height as u64).as_str(),
    )
}

/// The exit code of a process in words.
pub open spec fn exit_text(code: Option<i32>) -> Seq<char> {
    match code {
        Some(n) => "Some("@ + text::dec_int(n as int) + ")"@,
        None => "None"@,
    }
}

fn say_exit(code: Option<i32>) -> (r: String)
    ensures
        r@ == exit_text(code),
{
    match code {
        Some(n) => text::cat3("Some(", text::decimal_signed(n as i64).as_str(), ")"),
        None => text::own("None"),
    }
}

/// The next value of a counter that starts again after the last one.
pub open spec fn next_token(t: u64) -> u64 {
    if t == u64::MAX {
        0
    } else {
        (t + 1) as u64
    }
}

impl SessionModel {
    /// The state as it is shown.
    pub open spec fn shown(self, detail: Option<Seq<char>>) -> SessionStateView<Seq<char>> {
        SessionStateView {
            state: self.state,
            since: self.since,
            detail,
            control: state::control_of(self.state),
            mirror: state::mirror_of(self.state),
            last_error: self.last_error,
        }
    }

    pub open spec fn told(self, n: Notice<Seq<char>>) -> SessionModel {
        SessionModel { outbox: self.outbox.push(n), ..self }
    }

    /// Whether the state takes an event.
    pub open spec fn takes(self, event: SessionEvent) -> bool {
        state::next_state(self.state, event) is Some
    }

    /// After an event, where the state takes it.
    pub open spec fn applied(self, event: SessionEvent, detail: Option<Seq<char>>, at: Seq<char>) -> SessionModel {
        match state::next_state(self.state, event) {
            Some(next) => {
                let m = SessionModel { state: next, since: at, ..self };
                m.told(Notice::Session(m.shown(detail)))
            },
            None => self,
        }
    }

    /// What is reported where the state does not take an event.
    pub open spec fn refusal(self, event: SessionEvent) -> AdapterError<Seq<char>> {
        AdapterError::Failed(
            "非法状态转移 "@ + (InvalidTransition { from: self.state, event }).words(),
        )
    }

    /// After an error was noted.
    pub open spec fn recorded(self, e: diagnostics::LogEntry<Seq<char>>) -> SessionModel {
        SessionModel {
            error_log: manager::newest(self.error_log.push(e), ERROR_LOG_LIMIT as nat),
            ..self
        }.told(Notice::Error(e))
    }

    /// After something was logged; errors are noted as well.
    pub open spec fn logged(
        self,
        level: Seq<char>,
        code: Seq<char>,
        message: Seq<char>,
        at: Seq<char>,
    ) -> SessionModel {
        let e = entry(at, level, code, message);
        let m = self.told(Notice::Log(e));
        if level == "error"@ {
            m.recorded(e)
        } else {
            m
        }
    }

    /// After a failure became the last one.
    pub open spec fn failed_with(
        self,
        e: AdapterError<Seq<char>>,
        recoverable: bool,
        at: Seq<char>,
    ) -> SessionModel {
        SessionModel {
            last_error: Some(manager::session_error(e, recoverable)),
            ..self
        }.recorded(entry(at, "error"@, e.code_text(), e.message_text()))
    }

    /// The size of the picture of an Android phone.
    pub open spec fn android_size(self) -> (u32, u32) {
        match self.screen {
            Some(s) => s,
            None => match self.last_metadata {
                Some(s) => s,
                None => (1080, 2340),
            },
        }
    }
}

/// The serial number that a phone was found under.
pub open spec fn found_serial(found: Result<Option<String>, AdapterError>) -> Result<
    Option<Seq<char>>,
    AdapterError<Seq<char>>,
> {
    match found {
        Ok(s) => Ok(text::opt_text(s)),
        Err(e) => Err(e@),
    }
}

/// What is reported where no phone was found.
pub open spec fn serial_failure(found: Result<Option<Seq<char>>, AdapterError<Seq<char>>>) -> Option<
    AdapterError<Seq<char>>,
> {
    match found {
        Err(e) => Some(e),
        Ok(None) => Some(AdapterError::Failed("Android 设备未授权或已断开"@)),
        Ok(Some(_)) => None,
    }
}

/// The outcome of a step that can fail.
pub open spec fn step_failure(r: Result<(), AdapterError>) -> Option<AdapterError<Seq<char>>> {
    match r {
        Ok(_) => None,
        Err(e) => Some(e@),
    }
}

impl DeviceSession {
    /// A new session.
    pub fn new(id: String, kind: DeviceKind, uxplay_port: u16, at: &str) -> (r: Self)
        ensures
            r@ == fresh(id@, kind, uxplay_port, at@),
    {
        let r = DeviceSession {
            id,
            kind,
            uxplay_port,
            state: SessionStateMachine::new(),
            since: text::own(at),
            prefs: SessionPreferences::default(),
            mirror: false,
            screen: None,
            input: InputKind::Absent,
            android_serial: None,
            adb_drag: false,
            ios_drag: false,
            android_pointer: None,
            error_log: Vec::new(),
            paste_token: 0,
            last_error: None,
            last_metadata: None,
            frame_sink: false,
            frame_test_mode: false,
            reconnect_attempts: 0,
            reconnect_armed: false,
            outbox: Vec::new(),
        };
        assert(r@.error_log =~= Seq::empty());
        assert(r@.outbox =~= Seq::empty());
        r
    }

    pub(crate) fn tell(&mut self, n: Notice)
        ensures
            final(self)@ == old(self)@.told(n@),
    {
        let ghost before = self.outbox@;
        self.outbox.push(n);
        assert(manager::notices(self.outbox@) =~= manager::notices(before).push(n@));
    }

    pub(crate) fn view_now(&self, detail: Option<String>) -> (r: SessionStateView)
        ensures
            r@ == self@.shown(text::opt_text(detail)),
    {
        let s = self.state.state();
        SessionStateView {
            state: s,
            since: text::own(self.since.as_str()),
            detail,
            control: derive_control_state(s),
            mirror: derive_mirror_state(s),
            last_error: match &self.last_error {
                Some(e) => Some(e.clone()),
                None => None,
            },
        }
    }

    /// The state as it is shown.
    pub fn state_view(&self) -> (r: SessionStateView)
        ensures
            r@ == self@.shown(None),
    {
        self.view_now(None)
    }

    pub(crate) fn apply(&mut self, event: SessionEvent, detail: Option<String>, at: &str) -> (r: Result<
        (),
        AdapterError,
    >)
        ensures
            final(self)@ == old(self)@.applied(event, text::opt_text(detail), at@),
            match r {
                Ok(_) => old(self)@.takes(event),
                Err(e) => !old(self)@.takes(event) && e@ == old(self)@.refusal(event),
            },
    {
        match self.state.transition(event) {
            Err(e) => Err(
                AdapterError::Failed(text::cat2("非法状态转移 ", e.describe().as_str())),
            ),
            Ok(_) => {
                self.since = text::own(at);
                let view = self.view_now(detail);
                self.tell(Notice::Session(view));
                Ok(())
            },
        }
    }

    pub(crate) fn record_error(&mut self, e: LogEntry)
        ensures
            final(self)@ == old(self)@.recorded(e@),
    {
        let ghost before = self.error_log@;
        self.error_log.push(e.clone());
        assert(diagnostics::entries(self.error_log@) =~= diagnostics::entries(before).push(e@));
        keep_newest(&mut self.error_log, ERROR_LOG_LIMIT);
        self.tell(Notice::Error(e));
    }

    pub(crate) fn set_last_error(&mut self, e: &AdapterError, recoverable: bool, at: &str)
        ensures
            final(self)@ == old(self)@.failed_with(e@, recoverable, at@),
    {
        self.last_error = Some(SessionError::from_adapter(e, recoverable));
        self.record_error(
            LogEntry {
                at: text::own(at),
                level: text::own("error"),
                code: text::own(e.code()),
                message: e.message(),
            },
        );
    }

    pub(crate) fn emit_log(&mut self, level: &str, code: &str, message: &str, at: &str)
        ensures
            final(self)@ == old(self)@.logged(level@, code@, message@, at@),
    {
        let e = LogEntry {
            at: text::own(at),
            level: text::own(level),
            code: text::own(code),
            message: text::own(message),
        };
        self.tell(Notice::Log(e.clone()));
        if text::same(level, "error") {
            self.record_error(e);
        }
    }

    /// Takes what the session has to tell.
    pub fn take_outbox(&mut self) -> (r: Vec<Notice>)
        ensures
            final(self)@ == (SessionModel { outbox: Seq::empty(), ..old(self)@ }),
            manager::notices(r@) == old(self)@.outbox,
    {
        let mut out: Vec<Notice> = Vec::new();
        out.append(&mut self.outbox);
        assert(manager::notices(self.outbox@) =~= Seq::empty());
        assert(manager::notices(out@) =~= old(self)@.outbox);
        out
    }
}

// ---------------------------------------------------------------------------
// Starting and stopping
// ---------------------------------------------------------------------------

/// What was found before a session starts.
pub struct PreflightFacts {
    pub platform: HostPlatform,
    /// The path of the receiver, or why it was not found.
    pub receiver: Result<String, String>,
    /// The path of the debug bridge, or why it was not found.
    pub adb: Result<String, String>,
    pub devices: Result<Vec<AdbDevice>, AdapterError>,
    pub scrcpy_server: bool,
    pub ffmpeg: bool,
}

/// Whether a device is authorized.
pub open spec fn is_authorized(d: AdbDevice<Seq<char>>) -> bool {
    d.status == "device"@
}

/// Why a session cannot start; nothing where it can.
pub open spec fn obstacle(kind: DeviceKind, f: PreflightFacts) -> Option<AdapterError<Seq<char>>> {
    match kind {
        DeviceKind::Iphone => match f.receiver {
            Err(why) => Some(AdapterError::DependencyMissing(why@)),
            Ok(_) => if !(f.platform is MacOs) && !f.ffmpeg {
                Some(
                    AdapterError::DependencyMissing(
                        "未找到随应用分发的 ffmpeg。Windows iOS UxPlay RTP 输出需要宿主解码器，请运行 pnpm sidecars"@,
                    ),
                )
            } else {
                None
            },
        },
        DeviceKind::Android => match f.adb {
            Err(why) => Some(AdapterError::DependencyMissing(why@)),
            Ok(_) => match f.devices {
                Err(e) => Some(e@),
                Ok(v) => if !any_authorized(adb::adb_views(v@)) {
                    Some(
                        AdapterError::Failed(
                            "未找到已授权的 Android 设备；请开启 USB 调试并在设备上完成授权"@,
                        ),
                    )
                } else if !f.scrcpy_server {
                    Some(
                        AdapterError::DependencyMissing(
                            "未找到 scrcpy-server（需与宿主协议版本匹配）；请运行 pnpm sidecars 或配置 PHONEBRIDGE_SCRCPY_SERVER_PATH"@,
                        ),
                    )
                } else if !f.ffmpeg {
                    Some(
                        AdapterError::DependencyMissing(
                            "未找到 ffmpeg（PATH/Homebrew）。scrcpy H264 解码依赖 ffmpeg，请安装后重试"@,
                        ),
                    )
                } else {
                    None
                },
            },
        },
    }
}

pub open spec fn any_authorized(all: Seq<AdbDevice<Seq<char>>>) -> bool {
    exists|i: int| 0 <= i < all.len() && is_authorized(#[trigger] all[i])
}

fn has_authorized(v: &Vec<AdbDevice>) -> (r: bool)
    ensures
        r == any_authorized(adb::adb_views(v@)),
{
    let ghost all = adb::adb_views(v@);
    let mut i: usize = 0;
    while i < v.len()
        invariant
            i <= v@.len(),
            all == adb::adb_views(v@),
            forall|j: int| 0 <= j < i ==> !is_authorized(#[trigger] all[j]),
        decreases v@.len() - i,
    {
        assert(all[i as int] == v@[i as int]@);
        if text::same(v[i].status.as_str(), "device") {
            assert(is_authorized(all[i as int]));
            return true;
        }
        i = i + 1;
    }
    false
}

/// Checks what a session needs before it starts.
pub fn preflight(kind: DeviceKind, f: PreflightFacts) -> (r: Result<(), AdapterError>)
    ensures
        step_failure(r) == obstacle(kind, f),
{
    match kind {
        DeviceKind::Iphone => match f.receiver {
            Err(why) => Err(AdapterError::DependencyMissing(why)),
            Ok(_) => {
                if !matches!(f.platform, HostPlatform::MacOs) && !f.ffmpeg {
                    return Err(
                        AdapterError::DependencyMissing(
                            text::own(
                                "未找到随应用分发的 ffmpeg。Windows iOS UxPlay RTP 输出需要宿主解码器，请运行 pnpm sidecars",
                            ),
                        ),
                    );
                }
                Ok(())
            },
        },
        DeviceKind::Android => match f.adb {
            Err(why) => Err(AdapterError::DependencyMissing(why)),
            Ok(_) => match f.devices {
                Err(e) => Err(e),
                Ok(v) => {
                    if !has_authorized(&v) {
                        return Err(
                            AdapterError::Failed(
                                text::own(
                                    "未找到已授权的 Android 设备；请开启 USB 调试并在设备上完成授权",
                                ),
                            ),
                        );
                    }
                    if !f.scrcpy_server {
                        return Err(
                            AdapterError::DependencyMissing(
                                text::own(
                                    "未找到 scrcpy-server（需与宿主协议版本匹配）；请运行 pnpm sidecars 或配置 PHONEBRIDGE_SCRCPY_SERVER_PATH",
                                ),
                            ),
                        );
                    }
                    if !f.ffmpeg {
                        return Err(
                            AdapterError::DependencyMissing(
                                text::own(
                                    "未找到 ffmpeg（PATH/Homebrew）。scrcpy H264 解码依赖 ffmpeg，请安装后重试",
                                ),
                            ),
                        );
                    }
                    Ok(())
                },
            },
        },
    }
}

/// What is to be released when input ends.
#[derive(Debug, Clone, Copy, PartialEq, Eq, Structural)]
pub enum ReleaseWork {
    Nothing,
    /// The Bluetooth controller releases everything.
    Ble,
    /// The iPhone over USB releases everything.
    IosUsb,
    /// The finger is lifted from an Android phone.
    LiftFinger { x: u32, y: u32, width: u32, height: u32 },
}

/// What is to be stopped when a session ends.
#[derive(Debug, Clone, Copy, PartialEq, Eq, Structural)]
pub struct StopWork {
    pub release: ReleaseWork,
    /// The receiver of an iPhone.
    pub mirror: bool,
    /// The screen of an Android phone.
    pub screen: bool,
    /// The frames of the test picture.
    pub test_frames: bool,
}

impl SessionModel {
    /// After a session was asked to start; `failure` is what the checks found.
    pub open spec fn after_start(
        self,
        prefs: Option<SessionPreferences>,
        failure: Option<AdapterError<Seq<char>>>,
        at: Seq<char>,
    ) -> SessionModel {
        let m = SessionModel {
            prefs: match prefs {
                Some(p) => p,
                None => self.prefs,
            },
            ..self
        };
        if !m.takes(SessionEvent::UserConnect) {
            m
        } else {
            let c = m.applied(SessionEvent::UserConnect, None, at);
            match failure {
                None => c.applied(SessionEvent::ChecksPassed, None, at).applied(
                    SessionEvent::MirrorStarted,
                    None,
                    at,
                ),
                Some(e) => c.failed_with(e, true, at).applied(
                    SessionEvent::ChecksFailed,
                    Some(e.message_text()),
                    at,
                ),
            }
        }
    }

    /// What a session that is asked to start answers.
    pub open spec fn start_answer(self, failure: Option<AdapterError<Seq<char>>>) -> Option<
        AdapterError<Seq<char>>,
    > {
        if !self.takes(SessionEvent::UserConnect) {
            Some(self.refusal(SessionEvent::UserConnect))
        } else {
            failure
        }
    }

    /// After the receiver ended.
    pub open spec fn without_mirror(self) -> SessionModel {
        if self.mirror {
            SessionModel { mirror: false, last_metadata: None, ..self }
        } else {
            self
        }
    }

    /// After the receiver could not be started.
    pub open spec fn after_receiver_failed(self, e: AdapterError<Seq<char>>, at: Seq<char>) -> SessionModel {
        self.failed_with(e, true, at).without_mirror().applied(
            SessionEvent::MirrorFailed,
            Some("镜像引擎启动失败："@ + e.message_text()),
            at,
        )
    }

    /// After the screen could not be started.
    pub open spec fn after_screen_failed(self, e: AdapterError<Seq<char>>, at: Seq<char>) -> SessionModel {
        SessionModel { screen: None, ..self }.failed_with(e, true, at).applied(
            SessionEvent::MirrorFailed,
            Some("投屏启动失败："@ + e.message_text()),
            at,
        )
    }

    /// What is said of a picture that could not be started.
    pub open spec fn launch_failure_text(self, e: AdapterError<Seq<char>>) -> Seq<char> {
        match self.kind {
            DeviceKind::Iphone => "镜像引擎启动失败："@ + e.message_text(),
            DeviceKind::Android => "投屏启动失败："@ + e.message_text(),
        }
    }

    /// After the picture could not even be asked for. Only a session that is being started fails
    /// on that account: a reconnection notes itself what came of its attempt.
    pub open spec fn after_launch_failed(
        self,
        e: AdapterError<Seq<char>>,
        at: Seq<char>,
    ) -> SessionModel {
        if self.takes(SessionEvent::MirrorFailed) {
            self.failed_with(e, true, at).applied(
                SessionEvent::MirrorFailed,
                Some(self.launch_failure_text(e)),
                at,
            )
        } else {
            self
        }
    }

    /// After the screen was started.
    pub open spec fn after_screen_started(self, width: u32, height: u32, at: Seq<char>) -> SessionModel {
        let video = self.android_size();
        self.logged(
            "info"@,
            "screen_started"@,
            "scrcpy-server → H264 → ffmpeg 已启动（等待真实首帧，设备 "@ + size_text(
                width,
                height,
            ) + "，视频 "@ + size_text(video.0, video.1) + "）"@,
            at,
        )
    }

    /// After the screen ended.
    pub open spec fn without_screen(self, at: Seq<char>) -> SessionModel {
        if self.screen is Some {
            SessionModel { screen: None, android_pointer: None, adb_drag: false, ..self }.logged(
                "info"@,
                "screen_stopped"@,
                "Android scrcpy 投屏已停止"@,
                at,
            )
        } else {
            self
        }
    }

    /// What is released when input ends.
    pub open spec fn release_work(self) -> ReleaseWork {
        match self.input {
            InputKind::Absent => ReleaseWork::Nothing,
            InputKind::Ble => ReleaseWork::Ble,
            InputKind::IosUsb => ReleaseWork::IosUsb,
            InputKind::Scrcpy => match self.android_pointer {
                Some((x, y)) => {
                    let size = self.android_size();
                    ReleaseWork::LiftFinger { x, y, width: size.0, height: size.1 }
                },
                None => ReleaseWork::Nothing,
            },
        }
    }

    /// After everything that is pressed was released.
    pub open spec fn after_release(self) -> SessionModel {
        SessionModel {
            paste_token: next_token(self.paste_token),
            adb_drag: false,
            ios_drag: false,
            android_pointer: if self.input is Scrcpy {
                None
            } else {
                self.android_pointer
            },
            ..self
        }
    }

    pub open spec fn in_control(self) -> bool {
        self.state is ControlPairing || self.state is ControlReady
    }

    /// After control ended.
    pub open spec fn after_stop_control(self, at: Seq<char>) -> SessionModel {
        let m = SessionModel { input: InputKind::Absent, ..self.after_release() };
        if self.in_control() {
            m.applied(SessionEvent::BleDisconnected, Some("用户停止控制"@), at)
        } else {
            m
        }
    }

    /// After the session was asked to stop.
    pub open spec fn after_stop(self, at: Seq<char>) -> SessionModel {
        let rest = |m: SessionModel|
            SessionModel { frame_test_mode: false, ..m.without_mirror().without_screen(at) };
        if self.state is Idle || self.state is Stopping {
            self
        } else if self.state is Failed {
            rest(self.after_stop_control(at)).applied(SessionEvent::UserDismissError, None, at)
        } else {
            rest(
                self.after_stop_control(at).applied(SessionEvent::UserStop, None, at),
            ).applied(SessionEvent::CleanupDone, None, at)
        }
    }

    /// What is to be stopped when the session is asked to stop.
    pub open spec fn stop_work(self) -> StopWork {
        if self.state is Idle || self.state is Stopping {
            StopWork {
                release: ReleaseWork::Nothing,
                mirror: false,
                screen: false,
                test_frames: false,
            }
        } else {
            StopWork {
                release: self.release_work(),
                mirror: self.mirror,
                screen: self.screen is Some,
                test_frames: self.frame_test_mode,
            }
        }
    }
}

/// A session that could not be started is left in `Failed` with the error kept, whether its
/// checks failed or its picture could not be started.
pub proof fn failed_starts_are_kept(
    m: SessionModel,
    prefs: Option<SessionPreferences>,
    e: AdapterError<Seq<char>>,
    at: Seq<char>,
    later: Seq<char>,
)
    requires
        m.takes(SessionEvent::UserConnect),
    ensures
        m.after_start(prefs, Some(e), at).state is Failed,
        m.after_start(prefs, Some(e), at).last_error == Some(manager::session_error(e, true)),
        ({
            let s = m.after_start(prefs, None, at);
            &&& s.state is Mirroring
            &&& s.after_launch_failed(e, later).state is Failed
            &&& s.after_launch_failed(e, later).last_error == Some(manager::session_error(e, true))
            &&& s.after_receiver_failed(e, later).state is Failed
            &&& s.after_receiver_failed(e, later).last_error == Some(
                manager::session_error(e, true),
            )
            &&& s.after_screen_failed(e, later).state is Failed
            &&& s.after_screen_failed(e, later).last_error == Some(manager::session_error(e, true))
        }),
{
}

/// A session that is asked to stop ends in `Idle`, with no input, no receiver, no screen and
/// no test picture, whatever it was doing.
pub proof fn stopping_leads_to_idle(m: SessionModel, at: Seq<char>)
    requires
        !(m.state is Idle),
        !(m.state is Stopping),
    ensures
        m.after_stop(at).state is Idle,
        m.after_stop(at).input is Absent,
        !m.after_stop(at).mirror,
        m.after_stop(at).screen is None,
        !m.after_stop(at).frame_test_mode,
{
}

/// Whenever input is released, control ends or a running session ends, no finger and no button
/// stays down, and a paste that was under way is no longer the current one.
pub proof fn nothing_stays_pressed(m: SessionModel, at: Seq<char>)
    ensures
        ({
            let r = m.after_release();
            !r.adb_drag && !r.ios_drag && r.paste_token != m.paste_token
        }),
        ({
            let r = m.after_stop_control(at);
            !r.adb_drag && !r.ios_drag && r.paste_token != m.paste_token && r.input is Absent
        }),
        !(m.state is Idle) && !(m.state is Stopping) ==> {
            let r = m.after_stop(at);
            !r.adb_drag && !r.ios_drag && r.paste_token != m.paste_token
        },
{
}

/// The size of the screen of an Android phone: what it reports, or a common one.
pub fn phone_size(reported: Option<(u32, u32)>) -> (r: (u32, u32))
    ensures
        r == (match reported {
            Some(size) => size,
            None => (1080u32, 2340u32),
        }),
{
    match reported {
        Some(size) => size,
        None => (1080, 2340),
    }
}

impl DeviceSession {
    /// Starts the session; `checks` is what came of the checks. Where they passed, the picture
    /// is to be started next.
    pub fn start_session(
        &mut self,
        prefs: Option<SessionPreferences>,
        checks: Result<(), AdapterError>,
        at: &str,
    ) -> (r: Result<(), AdapterError>)
        ensures
            final(self)@ == old(self)@.after_start(prefs, step_failure(checks), at@),
            step_failure(r) == old(self)@.start_answer(step_failure(checks)),
    {
        match prefs {
            Some(p) => {
                self.prefs = p;
            },
            None => {},
        }
        match self.apply(SessionEvent::UserConnect, None, at) {
            Err(e) => {
                return Err(e);
            },
            Ok(_) => {},
        }
        match checks {
            Ok(_) => {
                let _ = self.apply(SessionEvent::ChecksPassed, None, at);
                let _ = self.apply(SessionEvent::MirrorStarted, None, at);
                Ok(())
            },
            Err(e) => {
                self.set_last_error(&e, true, at);
                let _ = self.apply(SessionEvent::ChecksFailed, Some(e.message()), at);
                Err(e)
            },
        }
    }

    /// Notes that the receiver of an iPhone runs.
    pub fn receiver_started(&mut self)
        ensures
            final(self)@ == (SessionModel { mirror: true, ..old(self)@ }),
    {
        self.mirror = true;
    }

    /// Notes that the receiver of an iPhone could not be started.
    pub fn receiver_failed(&mut self, e: &AdapterError, at: &str)
        ensures
            final(self)@ == old(self)@.after_receiver_failed(e@, at@),
    {
        self.set_last_error(e, true, at);
        let _ = self.stop_mirror();
        let _ = self.apply(
            SessionEvent::MirrorFailed,
            Some(text::cat2("镜像引擎启动失败：", e.message().as_str())),
            at,
        );
    }

    /// Notes that the picture of a session that is being started could not even be asked for:
    /// something that it needs is missing.
    pub fn launch_failed(&mut self, e: &AdapterError, at: &str)
        ensures
            final(self)@ == old(self)@.after_launch_failed(e@, at@),
    {
        let s = self.state.state();
        if !matches!(s, SessionStateName::Mirroring) {
            return;
        }
        let said = match self.kind {
            DeviceKind::Iphone => text::cat2("镜像引擎启动失败：", e.message().as_str()),
            DeviceKind::Android => text::cat2("投屏启动失败：", e.message().as_str()),
        };
        self.set_last_error(e, true, at);
        let _ = self.apply(SessionEvent::MirrorFailed, Some(said), at);
    }

    /// Chooses the Android phone of the session; `found` is its serial number. Where the phone
    /// was not found, the picture could not be started.
    pub fn choose_serial(
        &mut self,
        found: Result<Option<String>, AdapterError>,
        at: &str,
    ) -> (r: Result<(), AdapterError>)
        ensures
            step_failure(r) == serial_failure(found_serial(found)),
            match serial_failure(found_serial(found)) {
                Some(e) => final(self)@ == old(self)@.after_launch_failed(e, at@),
                None => final(self)@ == (SessionModel {
                    android_serial: found_serial(found)->Ok_0,
                    ..old(self)@
                }),
            },
    {
        let e = match found {
            Ok(Some(s)) => {
                self.android_serial = Some(s);
                return Ok(());
            },
            Ok(None) => AdapterError::Failed(text::own("Android 设备未授权或已断开")),
            Err(e) => e,
        };
        self.launch_failed(&e, at);
        Err(e)
    }

    /// Notes the size of the picture of the screen that is about to start.
    pub fn screen_created(&mut self, video: (u32, u32))
        ensures
            final(self)@ == (SessionModel { screen: Some(video), ..old(self)@ }),
    {
        self.screen = Some(video);
    }

    /// Notes that the screen of an Android phone could not be started.
    pub fn screen_failed(&mut self, e: &AdapterError, at: &str)
        ensures
            final(self)@ == old(self)@.after_screen_failed(e@, at@),
    {
        self.screen = None;
        self.set_last_error(e, true, at);
        let _ = self.apply(
            SessionEvent::MirrorFailed,
            Some(text::cat2("投屏启动失败：", e.message().as_str())),
            at,
        );
    }

    /// Notes that the screen of an Android phone of the given size was started.
    pub fn screen_started(&mut self, width: u32, height: u32, at: &str)
        ensures
            final(self)@ == old(self)@.after_screen_started(width, height, at@),
    {
        let (video_width, video_height) = self.android_dimensions();
        let s = text::cat5(
            "scrcpy-server → H264 → ffmpeg 已启动（等待真实首帧，设备 ",
            say_size(width, height).as_str(),
            "，视频 ",
            say_size(video_width, video_height).as_str(),
            "）",
        );
        self.emit_log("info", "screen_started", s.as_str(), at);
    }

    /// The size of the picture of an Android phone.
    pub fn android_dimensions(&self) -> (r: (u32, u32))
        ensures
            r == self@.android_size(),
    {
        match self.screen {
            Some(s) => s,
            None => match self.last_metadata {
                Some(s) => s,
                None => (1080, 2340),
            },
        }
    }

    /// Notes that the receiver of an iPhone ended; says whether one ran.
    pub fn stop_mirror(&mut self) -> (r: bool)
        ensures
            r == old(self)@.mirror,
            final(self)@ == old(self)@.without_mirror(),
    {
        if self.mirror {
            self.mirror = false;
            self.last_metadata = None;
            true
        } else {
            false
        }
    }

    fn stop_android_screen(&mut self, at: &str) -> (r: bool)
        ensures
            r == (old(self)@.screen is Some),
            final(self)@ == old(self)@.without_screen(at@),
    {
        match self.screen {
            None => false,
            Some(_) => {
                self.screen = None;
                self.android_pointer = None;
                self.adb_drag = false;
                self.emit_log("info", "screen_stopped", "Android scrcpy 投屏已停止", at);
                true
            },
        }
    }

    fn release_now(&mut self) -> (r: ReleaseWork)
        ensures
            r == old(self)@.release_work(),
            final(self)@ == old(self)@.after_release(),
    {
        self.paste_token = self.paste_token.wrapping_add(1);
        self.adb_drag = false;
        self.ios_drag = false;
        match self.input {
            InputKind::Absent => ReleaseWork::Nothing,
            InputKind::Ble => ReleaseWork::Ble,
            InputKind::IosUsb => ReleaseWork::IosUsb,
            InputKind::Scrcpy => {
                let size = self.android_dimensions();
                let work = match self.android_pointer {
                    Some((x, y)) => ReleaseWork::LiftFinger {
                        x,
                        y,
                        width: size.0,
                        height: size.1,
                    },
                    None => ReleaseWork::Nothing,
                };
                self.android_pointer = None;
                work
            },
        }
    }

    /// Releases everything that is pressed; input goes on.
    pub fn release_all_input(&mut self) -> (r: ReleaseWork)
        ensures
            r == old(self)@.release_work(),
            final(self)@ == old(self)@.after_release(),
    {
        self.release_now()
    }

    /// Tells the state of the Bluetooth controller after it released everything.
    pub fn controller_released(&mut self, status: HidStatus)
        ensures
            final(self)@ == old(self)@.told(Notice::Hid(status@)),
    {
        self.tell(Notice::Hid(status));
    }

    /// Ends control. What is pressed is to be released, and the controller goes away.
    pub fn stop_control(&mut self, at: &str) -> (r: (ReleaseWork, Result<(), AdapterError>))
        ensures
            r.0 == old(self)@.release_work(),
            final(self)@ == old(self)@.after_stop_control(at@),
            step_failure(r.1) == (if old(self)@.in_control() && !old(self)@.takes(
                SessionEvent::BleDisconnected,
            ) {
                Some(old(self)@.refusal(SessionEvent::BleDisconnected))
            } else {
                None
            }),
    {
        let work = self.release_now();
        self.input = InputKind::Absent;
        let s = self.state.state();
        let in_control = matches!(
            s,
            SessionStateName::ControlPairing | SessionStateName::ControlReady
        );
        if in_control {
            let r = self.apply(
                SessionEvent::BleDisconnected,
                Some(text::own("用户停止控制")),
                at,
            );
            (work, r)
        } else {
            (work, Ok(()))
        }
    }

    /// Ends the session: control first, then the picture.
    pub fn stop_session(&mut self, at: &str) -> (r: (StopWork, Result<(), AdapterError>))
        ensures
            r.0 == old(self)@.stop_work(),
            r.1 is Ok,
            final(self)@ == old(self)@.after_stop(at@),
    {
        let s = self.state.state();
        if matches!(s, SessionStateName::Idle | SessionStateName::Stopping) {
            return (
                StopWork {
                    release: ReleaseWork::Nothing,
                    mirror: false,
                    screen: false,
                    test_frames: false,
                },
                Ok(()),
            );
        }
        let failed = matches!(s, SessionStateName::Failed);
        let (release, _) = self.stop_control(at);
        if !failed {
            let _ = self.apply(SessionEvent::UserStop, None, at);
        }
        let mirror = self.stop_mirror();
        let screen = self.stop_android_screen(at);
        let test_frames = self.frame_test_mode;
        self.frame_test_mode = false;
        if failed {
            let _ = self.apply(SessionEvent::UserDismissError, None, at);
        } else {
            let _ = self.apply(SessionEvent::CleanupDone, None, at);
        }
        (StopWork { release, mirror, screen, test_frames }, Ok(()))
    }
}

// ---------------------------------------------------------------------------
// The picture
// ---------------------------------------------------------------------------

/// What is to be done after something happened to the picture.
#[derive(Debug, Clone, Copy, PartialEq, Eq, Structural)]
pub struct MirrorWork {
    /// Control is to be started.
    pub start_control: bool,
    /// The reconnection is to be started.
    pub start_reconnect: bool,
    /// The receiver is to be stopped.
    pub stop_receiver: bool,
}

/// Nothing is to be done.
pub open spec fn no_work() -> MirrorWork {
    MirrorWork { start_control: false, start_reconnect: false, stop_receiver: false }
}

/// The name of a process.
pub open spec fn process_name(source: Seq<char>) -> Seq<char> {
    if source == "uxplay"@ {
        "UxPlay"@
    } else if source == "ios-ffmpeg"@ {
        "iOS ffmpeg"@
    } else {
        source
    }
}

impl SessionModel {
    pub open spec fn has_picture(self) -> bool {
        self.state is MirroringConnected || self.state is ControlPairing || self.state
            is ControlReady
    }

    /// After the test picture was switched: it runs only where frames have somewhere to go.
    pub open spec fn with_test_frames(self, enabled: bool) -> SessionModel {
        SessionModel { frame_test_mode: enabled && self.frame_sink, ..self }
    }

    /// Why the test picture is not switched.
    pub open spec fn test_frames_refusal(self, enabled: bool) -> Option<AdapterError<Seq<char>>> {
        if enabled && !self.frame_sink {
            Some(AdapterError::Busy("尚未附加帧通道"@))
        } else {
            None
        }
    }

    /// The size of the picture, or the common one where it is not known.
    pub open spec fn picture_size(self) -> (u32, u32) {
        match self.last_metadata {
            Some(s) => s,
            None => (640, 480),
        }
    }

    /// After a reconnection was asked for.
    pub open spec fn scheduled(self) -> SessionModel {
        if self.reconnect_armed {
            self
        } else {
            SessionModel { reconnect_armed: true, reconnect_attempts: 0, ..self }
        }
    }

    /// After the picture came back.
    pub open spec fn after_reconnected(self, at: Seq<char>) -> SessionModel {
        if !(self.state is Reconnecting) {
            self
        } else {
            SessionModel { reconnect_attempts: 0, reconnect_armed: false, ..self }.applied(
                SessionEvent::ReconnectOk,
                Some("镜像链路已自动恢复"@),
                at,
            ).logged("info"@, "reconnect_ok"@, "镜像链路自动重连成功"@, at)
        }
    }

    /// After the size of the picture became known.
    pub open spec fn after_metadata(self, width: u32, height: u32) -> SessionModel {
        SessionModel { last_metadata: Some((width, height)), ..self }.told(
            Notice::Metadata { width, height },
        )
    }

    /// After the connection of the receiver stood.
    pub open spec fn after_connected(self, at: Seq<char>) -> SessionModel {
        if self.state is Mirroring {
            self.applied(
                SessionEvent::MirrorConnected,
                Some("AirPlay 会话已建立"@),
                at,
            ).logged(
                "info"@,
                "mirror_connected"@,
                "iOS AirPlay 镜像连接已建立，正在等待视频首帧"@,
                at,
            )
        } else {
            self.after_reconnected(at)
        }
    }

    /// After the first frame came.
    pub open spec fn after_first_frame(self, at: Seq<char>) -> SessionModel {
        let (width, height) = self.picture_size();
        let m = if self.state is Reconnecting {
            self.after_reconnected(at)
        } else if self.state is Mirroring {
            self.applied(SessionEvent::FirstFrame, Some(size_text(width, height)), at)
        } else {
            self
        };
        if self.state is Mirroring || self.has_picture() {
            m.logged(
                "info"@,
                "first_frame"@,
                "已解码 "@ + (if text::stands_at(self.id, "iphone"@, 0) {
                    "iOS"@
                } else {
                    "Android"@
                }) + " 首帧（"@ + size_text(width, height) + "）"@,
                at,
            )
        } else {
            m
        }
    }

    /// After a process ended that should not.
    pub open spec fn after_crash(self, source: Seq<char>, code: Option<i32>, at: Seq<char>) -> SessionModel {
        if self.state is Idle || self.state is Stopping || self.state is Failed {
            self
        } else {
            let name = process_name(source);
            let m = self.recorded(
                entry(
                    at,
                    "error"@,
                    "mirror_crashed"@,
                    name + " 已停止（退出码 "@ + exit_text(code)
                        + "），可一键重启；请查看镜像进程日志"@,
                ),
            );
            if self.has_picture() {
                m.applied(SessionEvent::LinkLost, None, at).scheduled()
            } else {
                let message = name + " 镜像进程已停止"@;
                m.failed_with(AdapterError::Failed(message), true, at).applied(
                    SessionEvent::MirrorFailed,
                    Some(message),
                    at,
                )
            }
        }
    }

    /// After something happened to the picture of an iPhone.
    pub open spec fn after_mirror_event(self, event: MirrorEvent<Seq<char>>, at: Seq<char>) -> SessionModel {
        match event {
            MirrorEvent::Metadata { width, height } => self.after_metadata(width, height),
            MirrorEvent::MirrorConnected => self.after_connected(at),
            MirrorEvent::FirstFrame => self.after_first_frame(at),
            MirrorEvent::Crashed { source, exit_code } => self.after_crash(source, exit_code, at),
            MirrorEvent::LogLine(line) => if line.len() == 0 {
                self
            } else {
                self.told(Notice::Log(entry(at, "info"@, "mirror_process"@, line)))
            },
        }
    }

    /// What is to be done after something happened to the picture of an iPhone.
    pub open spec fn mirror_work(self, event: MirrorEvent<Seq<char>>, at: Seq<char>) -> MirrorWork {
        match event {
            MirrorEvent::FirstFrame => MirrorWork {
                start_control: (self.state is Mirroring || self.has_picture())
                    && self.prefs.auto_control && self.after_first_frame(at).state
                    is MirroringConnected,
                ..no_work()
            },
            MirrorEvent::Crashed { source, exit_code } => if self.state is Idle || self.state
                is Stopping || self.state is Failed {
                no_work()
            } else {
                MirrorWork {
                    start_reconnect: self.has_picture() && !self.reconnect_armed,
                    stop_receiver: true,
                    ..no_work()
                }
            },
            _ => no_work(),
        }
    }

    /// After the stream of an Android phone broke.
    pub open spec fn after_stream_failure(self, message: Seq<char>, at: Seq<char>) -> SessionModel {
        let m = self.failed_with(AdapterError::Failed(message), true, at);
        if self.state is Mirroring {
            m.applied(SessionEvent::MirrorFailed, Some(message), at)
        } else if self.has_picture() {
            m.applied(SessionEvent::LinkLost, Some(message), at).scheduled()
        } else {
            m
        }
    }
}

/// A crash that comes while a session is being cleaned up changes nothing and is not noted.
pub proof fn late_crashes_are_ignored(
    m: SessionModel,
    source: Seq<char>,
    code: Option<i32>,
    at: Seq<char>,
)
    requires
        m.state is Idle || m.state is Stopping || m.state is Failed,
    ensures
        m.after_mirror_event(MirrorEvent::Crashed { source, exit_code: code }, at) == m,
        m.mirror_work(MirrorEvent::Crashed { source, exit_code: code }, at) == no_work(),
{
}

/// At most one reconnection runs at a time: asking again while one runs changes nothing.
pub proof fn asking_twice_starts_one_reconnection(m: SessionModel)
    ensures
        m.scheduled().reconnect_armed,
        m.scheduled().scheduled() == m.scheduled(),
{
}

impl DeviceSession {
    /// Asks for a reconnection; says whether one is to be started.
    pub fn schedule_reconnect(&mut self) -> (r: bool)
        ensures
            r == !old(self)@.reconnect_armed,
            final(self)@ == old(self)@.scheduled(),
    {
        if self.reconnect_armed {
            false
        } else {
            self.reconnect_armed = true;
            self.reconnect_attempts = 0;
            true
        }
    }

    pub(crate) fn on_reconnect_success(&mut self, at: &str)
        ensures
            final(self)@ == old(self)@.after_reconnected(at@),
    {
        let s = self.state.state();
        if !matches!(s, SessionStateName::Reconnecting) {
            return;
        }
        self.reconnect_attempts = 0;
        self.reconnect_armed = false;
        let _ = self.apply(
            SessionEvent::ReconnectOk,
            Some(text::own("镜像链路已自动恢复")),
            at,
        );
        self.emit_log("info", "reconnect_ok", "镜像链路自动重连成功", at);
    }

    fn on_metadata(&mut self, width: u32, height: u32)
        ensures
            final(self)@ == old(self)@.after_metadata(width, height),
    {
        self.last_metadata = Some((width, height));
        self.tell(Notice::Metadata { width, height });
    }

    fn on_connected(&mut self, at: &str)
        ensures
            final(self)@ == old(self)@.after_connected(at@),
    {
        let s = self.state.state();
        if matches!(s, SessionStateName::Mirroring) {
            let _ = self.apply(
                SessionEvent::MirrorConnected,
                Some(text::own("AirPlay 会话已建立")),
                at,
            );
            self.emit_log(
                "info",
                "mirror_connected",
                "iOS AirPlay 镜像连接已建立，正在等待视频首帧",
                at,
            );
        } else {
            self.on_reconnect_success(at);
        }
    }

    fn on_first_frame(&mut self, at: &str)
        ensures
            final(self)@ == old(self)@.after_first_frame(at@),
    {
        let (width, height) = match self.last_metadata {
            Some(s) => s,
            None => (640, 480),
        };
        let size = say_size(width, height);
        let s = self.state.state();
        let active = matches!(
            s,
            SessionStateName::Mirroring
                | SessionStateName::MirroringConnected
                | SessionStateName::ControlPairing
                | SessionStateName::ControlReady
        );
        if matches!(s, SessionStateName::Reconnecting) {
            self.on_reconnect_success(at);
        } else if matches!(s, SessionStateName::Mirroring) {
            let _ = self.apply(SessionEvent::FirstFrame, Some(text::own(size.as_str())), at);
        }
        if active {
            let label = if text::starts_with(self.id.as_str(), "iphone") {
                "iOS"
            } else {
                "Android"
            };
            let message = text::cat5("已解码 ", label, " 首帧（", size.as_str(), "）");
            self.emit_log("info", "first_frame", message.as_str(), at);
        }
    }

    fn on_crash(&mut self, source: &str, code: Option<i32>, at: &str)
        ensures
            final(self)@ == old(self)@.after_crash(source@, code, at@),
    {
        let s = self.state.state();
        if matches!(
            s,
            SessionStateName::Idle | SessionStateName::Stopping | SessionStateName::Failed
        ) {
            return;
        }
        let name = if text::same(source, "uxplay") {
            "UxPlay"
        } else if text::same(source, "ios-ffmpeg") {
            "iOS ffmpeg"
        } else {
            source
        };
        let message = text::cat4(
            name,
            " 已停止（退出码 ",
            say_exit(code).as_str(),
            "），可一键重启；请查看镜像进程日志",
        );
        self.record_error(
            LogEntry {
                at: text::own(at),
                level: text::own("error"),
                code: text::own("mirror_crashed"),
                message,
            },
        );
        if matches!(
            s,
            SessionStateName::MirroringConnected
                | SessionStateName::ControlPairing
                | SessionStateName::ControlReady
        ) {
            let _ = self.apply(SessionEvent::LinkLost, None, at);
            let _ = self.schedule_reconnect();
        } else {
            let message = text::cat2(name, " 镜像进程已停止");
            let err = AdapterError::Failed(text::own(message.as_str()));
            self.set_last_error(&err, true, at);
            let _ = self.apply(SessionEvent::MirrorFailed, Some(message), at);
        }
    }

    /// Notes what happened to the picture of an iPhone, and says what is to be done.
    pub fn on_mirror_event(&mut self, event: MirrorEvent, at: &str) -> (r: MirrorWork)
        ensures
            r == old(self)@.mirror_work(event@, at@),
            final(self)@ == old(self)@.after_mirror_event(event@, at@),
    {
        let s = self.state.state();
        let armed = self.reconnect_armed;
        let connected = matches!(
            s,
            SessionStateName::MirroringConnected
                | SessionStateName::ControlPairing
                | SessionStateName::ControlReady
        );
        let nothing = MirrorWork {
            start_control: false,
            start_reconnect: false,
            stop_receiver: false,
        };
        match event {
            MirrorEvent::Metadata { width, height } => {
                self.on_metadata(width, height);
                nothing
            },
            MirrorEvent::MirrorConnected => {
                self.on_connected(at);
                nothing
            },
            MirrorEvent::FirstFrame => {
                self.on_first_frame(at);
                let now = self.state.state();
                MirrorWork {
                    start_control: (connected || matches!(s, SessionStateName::Mirroring))
                        && self.prefs.auto_control && matches!(
                        now,
                        SessionStateName::MirroringConnected
                    ),
                    start_reconnect: false,
                    stop_receiver: false,
                }
            },
            MirrorEvent::Crashed { source, exit_code } => {
                self.on_crash(source.as_str(), exit_code, at);
                if matches!(
                    s,
                    SessionStateName::Idle | SessionStateName::Stopping | SessionStateName::Failed
                ) {
                    nothing
                } else {
                    MirrorWork {
                        start_control: false,
                        start_reconnect: connected && !armed,
                        stop_receiver: true,
                    }
                }
            },
            MirrorEvent::LogLine(line) => {
                if !line.as_str().is_empty() {
                    self.tell(
                        Notice::Log(
                            LogEntry {
                                at: text::own(at),
                                level: text::own("info"),
                                code: text::own("mirror_process"),
                                message: line,
                            },
                        ),
                    );
                }
                nothing
            },
        }
    }

    /// Notes that the stream of an Android phone broke; says whether a reconnection is to be
    /// started.
    pub fn on_android_stream_failure(&mut self, message: &str, at: &str) -> (r: bool)
        ensures
            r == (old(self)@.has_picture() && !old(self)@.reconnect_armed),
            final(self)@ == old(self)@.after_stream_failure(message@, at@),
    {
        let s = self.state.state();
        let error = AdapterError::Failed(text::own(message));
        self.set_last_error(&error, true, at);
        match s {
            SessionStateName::Mirroring => {
                let _ = self.apply(SessionEvent::MirrorFailed, Some(text::own(message)), at);
                false
            },
            SessionStateName::MirroringConnected
            | SessionStateName::ControlPairing
            | SessionStateName::ControlReady => {
                let _ = self.apply(SessionEvent::LinkLost, Some(text::own(message)), at);
                self.schedule_reconnect()
            },
            _ => false,
        }
    }
}

// ---------------------------------------------------------------------------
// Reconnecting
// ---------------------------------------------------------------------------

/// What a reconnection does next.
#[derive(Debug, Clone, Copy, PartialEq, Eq, Structural)]
pub enum ReconnectStep {
    /// It ends.
    End,
    /// It waits, and then starts the picture again.
    Wait { delay_ms: u64, attempt: u32 },
}

impl SessionModel {
    /// Whether another attempt may follow.
    pub open spec fn may_try(self) -> bool {
        self.state is Reconnecting && self.reconnect_attempts < RECONNECT_MAX_ATTEMPTS
    }

    /// After a reconnection decided what to do next.
    pub open spec fn after_round(self, at: Seq<char>) -> SessionModel {
        let n: int = self.reconnect_attempts + 1;
        let counted = SessionModel { reconnect_attempts: n as u32, ..self };
        if !(self.state is Reconnecting) {
            self
        } else if self.may_try() {
            counted.logged(
                "info"@,
                "reconnect_scheduled"@,
                "镜像链路断开，"@ + text::dec((delay_before(n as u32) / 1000) as nat)
                    + ".0 秒后自动重连（第 "@ + text::dec(n as nat) + " 次，共 "@ + text::dec(5)
                    + " 次）"@,
                at,
            )
        } else {
            let message = "镜像链路自动重连 "@ + text::dec(self.reconnect_attempts as nat)
                + " 次未成功，请手动重试投屏"@;
            counted.logged("error"@, "reconnect_timeout"@, message, at).failed_with(
                AdapterError::Failed(message),
                true,
                at,
            ).applied(SessionEvent::ReconnectTimeout, Some(message), at)
        }
    }

    /// After the wait was over.
    pub open spec fn after_pause(self, attempt: u32, at: Seq<char>) -> SessionModel {
        if self.state is Reconnecting {
            self.logged(
                "info"@,
                "reconnect_started"@,
                "正在重启镜像接收器（第 "@ + text::dec(attempt as nat) + " 次）"@,
                at,
            )
        } else {
            self
        }
    }

    /// After the picture could not be started again.
    pub open spec fn after_relaunch_failed(self, e: AdapterError<Seq<char>>, at: Seq<char>) -> SessionModel {
        self.logged(
            "warn"@,
            "reconnect_failed"@,
            "镜像接收器重启失败："@ + e.message_text(),
            at,
        ).failed_with(e, true, at)
    }
}

/// A reconnection gives up after its last attempt: the session has then failed.
pub proof fn reconnection_gives_up(m: SessionModel, at: Seq<char>)
    requires
        m.state is Reconnecting,
        m.reconnect_attempts < u32::MAX,
    ensures
        m.after_round(at).reconnect_attempts == m.reconnect_attempts + 1,
        m.reconnect_attempts >= 5 ==> m.after_round(at).state is Failed,
        m.reconnect_attempts < 5 ==> m.after_round(at).state is Reconnecting,
{
}

impl DeviceSession {
    /// Whether the session is still reconnecting.
    pub fn still_reconnecting(&self) -> (r: bool)
        ensures
            r == (self@.state is Reconnecting),
    {
        let s = self.state.state();
        matches!(s, SessionStateName::Reconnecting)
    }

    /// Decides what a reconnection does next.
    pub fn reconnect_round(&mut self, at: &str) -> (r: ReconnectStep)
        requires
            old(self)@.reconnect_attempts < u32::MAX,
        ensures
            r == (if old(self)@.may_try() {
                ReconnectStep::Wait {
                    delay_ms: delay_before((old(self)@.reconnect_attempts + 1) as u32) as u64,
                    attempt: (old(self)@.reconnect_attempts + 1) as u32,
                }
            } else {
                ReconnectStep::End
            }),
            final(self)@ == old(self)@.after_round(at@),
    {
        if !self.still_reconnecting() {
            return ReconnectStep::End;
        }
        let before = self.reconnect_attempts;
        let attempt: u32 = before + 1;
        self.reconnect_attempts = attempt;
        if attempt > RECONNECT_MAX_ATTEMPTS {
            let message = text::cat3(
                "镜像链路自动重连 ",
                text::decimal(before as u64).as_str(),
                " 次未成功，请手动重试投屏",
            );
            self.emit_log("error", "reconnect_timeout", message.as_str(), at);
            let err = AdapterError::Failed(text::own(message.as_str()));
            self.set_last_error(&err, true, at);
            let _ = self.apply(SessionEvent::ReconnectTimeout, Some(message), at);
            return ReconnectStep::End;
        }
        let delay_ms = reconnect_delay_ms(attempt);
        let mut message = text::cat5(
            "镜像链路断开，",
            text::decimal(delay_ms / 1000).as_str(),
            ".0 秒后自动重连（第 ",
            text::decimal(attempt as u64).as_str(),
            " 次，共 ",
        );
        message.append(text::decimal(RECONNECT_MAX_ATTEMPTS as u64).as_str());
        message.append(" 次）");
        self.emit_log("info", "reconnect_scheduled", message.as_str(), at);
        ReconnectStep::Wait { delay_ms, attempt }
    }

    /// Goes on after the wait; says whether the picture is to be started again.
    pub fn pause_over(&mut self, attempt: u32, at: &str) -> (r: bool)
        ensures
            r == (old(self)@.state is Reconnecting),
            final(self)@ == old(self)@.after_pause(attempt, at@),
    {
        if !self.still_reconnecting() {
            return false;
        }
        let message = text::cat3(
            "正在重启镜像接收器（第 ",
            text::decimal(attempt as u64).as_str(),
            " 次）",
        );
        self.emit_log("info", "reconnect_started", message.as_str(), at);
        true
    }

    /// Notes that the picture could not be started again.
    pub fn relaunch_failed(&mut self, e: &AdapterError, at: &str)
        ensures
            final(self)@ == old(self)@.after_relaunch_failed(e@, at@),
    {
        let message = text::cat2("镜像接收器重启失败：", e.message().as_str());
        self.emit_log("warn", "reconnect_failed", message.as_str(), at);
        self.set_last_error(e, true, at);
    }

    /// Notes that the reconnection ended.
    pub fn reconnect_ended(&mut self)
        ensures
            final(self)@ == (SessionModel { reconnect_armed: false, ..old(self)@ }),
    {
        self.reconnect_armed = false;
    }
}

// ---------------------------------------------------------------------------
// Frames and queries
// ---------------------------------------------------------------------------

impl DeviceSession {
    /// Notes that frames have somewhere to go.
    pub fn attach_frame_sink(&mut self) -> (r: Result<(), AdapterError>)
        ensures
            r is Ok,
            final(self)@ == (SessionModel { frame_sink: true, ..old(self)@ }),
    {
        self.frame_sink = true;
        Ok(())
    }

    /// Switches the test picture; the one that runs is stopped first. It needs somewhere to
    /// go.
    pub fn set_test_frames(&mut self, enabled: bool) -> (r: Result<bool, AdapterError>)
        ensures
            final(self)@ == old(self)@.with_test_frames(enabled),
            match r {
                Ok(start) => start == enabled && old(self)@.test_frames_refusal(enabled) is None,
                Err(e) => old(self)@.test_frames_refusal(enabled) == Some(e@),
            },
    {
        self.frame_test_mode = false;
        if !enabled {
            return Ok(false);
        }
        if !self.frame_sink {
            return Err(AdapterError::Busy(text::own("尚未附加帧通道")));
        }
        self.frame_test_mode = true;
        Ok(true)
    }

    /// Whether frames have somewhere to go, whether the test picture runs, and the size of the
    /// picture.
    pub fn frame_status(&self) -> (r: (bool, bool, u32, u32))
        ensures
            r == (
                self@.frame_sink,
                self@.frame_test_mode,
                self@.picture_size().0,
                self@.picture_size().1,
            ),
    {
        let (width, height) = match self.last_metadata {
            Some(s) => s,
            None => (640, 480),
        };
        (self.frame_sink, self.frame_test_mode, width, height)
    }

    pub fn preferences(&self) -> (r: SessionPreferences)
        ensures
            r == self@.prefs,
    {
        self.prefs
    }

    /// The errors that were noted.
    pub fn error_log(&self) -> (r: Vec<LogEntry>)
        ensures
            diagnostics::entries(r@) == self@.error_log,
    {
        diagnostics::copy_entries(&self.error_log)
    }

    /// The size of the picture, once it is known.
    pub fn mirror_metadata(&self) -> (r: Option<(u32, u32)>)
        ensures
            r == self@.last_metadata,
    {
        self.last_metadata
    }

    /// The first of the ports of the receiver.
    pub fn uxplay_port(&self) -> (r: u16)
        ensures
            r == self@.uxplay_port,
    {
        self.uxplay_port
    }
}

/// The log of errors never holds more than its limit, whatever is noted.
pub proof fn error_log_is_bounded(m: SessionModel, e: diagnostics::LogEntry<Seq<char>>)
    ensures
        m.recorded(e).error_log.len() <= ERROR_LOG_LIMIT,
        m.recorded(e).error_log.len() > 0 ==> m.recorded(e).error_log.last() == e,
{
    let s = m.error_log.push(e);
    if s.len() > ERROR_LOG_LIMIT {
        assert(s.skip(s.len() - ERROR_LOG_LIMIT).last() == s.last());
    }
}

// ---------------------------------------------------------------------------
// Laws
// ---------------------------------------------------------------------------

/// The second and the fourth bit of the mask stand for a keyboard, the first and the third for a
/// mouse; other bits do not matter.
pub proof fn subscriptions_stand_in_their_bits(mask: u8)
    ensures
        keyboard_subscribed(mask) <==> (mask / 2) % 2 == 1 || (mask / 8) % 2 == 1,
        mouse_subscribed(mask) <==> mask % 2 == 1 || (mask / 4) % 2 == 1,
{
    assert((mask & 2 != 0) == ((mask / 2) % 2 == 1)) by (bit_vector);
    assert((mask & 8 != 0) == ((mask / 8) % 2 == 1)) by (bit_vector);
    assert((mask & 1 != 0) == (mask % 2 == 1)) by (bit_vector);
    assert((mask & 4 != 0) == ((mask / 4) % 2 == 1)) by (bit_vector);
}

/// A session can start exactly where all that its phone needs is there: an iPhone needs the
/// receiver and, but on a Mac, a decoder; an Android phone needs the debug bridge, an authorized
/// device, the server and a decoder. What the other kind of phone needs does not matter.
pub proof fn sessions_start_with_what_their_phone_needs(f: PreflightFacts, g: PreflightFacts)
    ensures
        obstacle(DeviceKind::Iphone, f) is None <==> f.receiver is Ok && (f.platform is MacOs
            || f.ffmpeg),
        obstacle(DeviceKind::Android, f) is None <==> f.adb is Ok && f.devices is Ok
            && any_authorized(adb::adb_views(f.devices->Ok_0@)) && f.scrcpy_server && f.ffmpeg,
        f.platform == g.platform && f.receiver == g.receiver && f.ffmpeg == g.ffmpeg ==> obstacle(
            DeviceKind::Iphone,
            f,
        ) == obstacle(DeviceKind::Iphone, g),
        f.adb == g.adb && f.devices == g.devices && f.scrcpy_server == g.scrcpy_server && f.ffmpeg
            == g.ffmpeg ==> obstacle(DeviceKind::Android, f) == obstacle(DeviceKind::Android, g),
{
}

/// What is missing is reported as a missing dependency, in the words of who looked for it; a
/// phone that nobody authorized is a failure, and a listing that failed is passed on.
pub proof fn obstacles_are_reported_in_order(f: PreflightFacts)
    ensures
        f.receiver matches Err(why) ==> obstacle(DeviceKind::Iphone, f) == Some(
            AdapterError::DependencyMissing(why@),
        ),
        f.receiver is Ok && obstacle(DeviceKind::Iphone, f) is Some ==> obstacle(
            DeviceKind::Iphone,
            f,
        )->Some_0 is DependencyMissing,
        f.adb matches Err(why) ==> obstacle(DeviceKind::Android, f) == Some(
            AdapterError::DependencyMissing(why@),
        ),
        f.adb is Ok ==> (f.devices matches Err(e) ==> obstacle(DeviceKind::Android, f) == Some(e@)),
        f.adb is Ok ==> (f.devices matches Ok(v) ==> {
            let found = obstacle(DeviceKind::Android, f);
            &&& !any_authorized(adb::adb_views(v@)) <==> found is Some && found->Some_0 is Failed
            &&& found is Some && any_authorized(adb::adb_views(v@)) ==> found->Some_0
                is DependencyMissing
        }),
{
}

/// The states that notices tell of, in their order.
pub open spec fn told_states(all: Seq<Notice<Seq<char>>>) -> Seq<SessionStateName>
    decreases all.len(),
{
    if all.len() == 0 {
        Seq::empty()
    } else {
        match all.last() {
            Notice::Session(view) => told_states(all.drop_last()).push(view.state),
            _ => told_states(all.drop_last()),
        }
    }
}

/// What a session tells besides leaves the states that it told of as they are, and a state is
/// told behind those before it.
pub proof fn lemma_told_states(all: Seq<Notice<Seq<char>>>, n: Notice<Seq<char>>)
    ensures
        n matches Notice::Session(view) ==> told_states(all.push(n)) == told_states(all).push(
            view.state,
        ),
        !(n is Session) ==> told_states(all.push(n)) == told_states(all),
{
    assert(all.push(n).drop_last() =~= all);
}

/// An idle session that is started tells that it checks, then that it is ready, then that it
/// mirrors, or, where the checks failed, that it checks and then that it failed. It takes the
/// preferences that are given and keeps its own otherwise. A session that is not idle stays as
/// it is but for the preferences, and refuses.
pub proof fn starting_goes_through_the_checks(
    m: SessionModel,
    prefs: Option<SessionPreferences>,
    e: AdapterError<Seq<char>>,
    at: Seq<char>,
)
    ensures
        ({
            let good = m.after_start(prefs, None, at);
            let bad = m.after_start(prefs, Some(e), at);
            &&& prefs matches Some(p) ==> good.prefs == p && bad.prefs == p
            &&& prefs is None ==> good.prefs == m.prefs && bad.prefs == m.prefs
            &&& m.state is Idle ==> told_states(good.outbox) == told_states(m.outbox)
                + seq![
                SessionStateName::Checking,
                SessionStateName::Ready,
                SessionStateName::Mirroring,
            ]
            &&& m.state is Idle ==> told_states(bad.outbox) == told_states(m.outbox)
                + seq![SessionStateName::Checking, SessionStateName::Failed]
            &&& m.state is Idle ==> good.state is Mirroring && good.since == at && bad.state
                is Failed && bad.since == at
            &&& m.state is Idle ==> m.start_answer(None) is None && m.start_answer(Some(e)) == Some(
                e,
            )
            &&& !(m.state is Idle) ==> good == (SessionModel { prefs: good.prefs, ..m }) && bad
                == good
            &&& !(m.state is Idle) ==> (m.start_answer(None) matches Some(AdapterError::Failed(_)))
            &&& good.input == m.input && good.screen == m.screen && good.mirror == m.mirror
                && good.last_error == m.last_error && good.error_log == m.error_log
        }),
{
    let p = SessionModel {
        prefs: match prefs {
            Some(p) => p,
            None => m.prefs,
        },
        ..m
    };
    if m.state is Idle {
        let c = p.applied(SessionEvent::UserConnect, None, at);
        lemma_told_states(p.outbox, c.outbox.last());
        let r = c.applied(SessionEvent::ChecksPassed, None, at);
        lemma_told_states(c.outbox, r.outbox.last());
        let s = r.applied(SessionEvent::MirrorStarted, None, at);
        lemma_told_states(r.outbox, s.outbox.last());
        assert(told_states(s.outbox) =~= told_states(m.outbox) + seq![
            SessionStateName::Checking,
            SessionStateName::Ready,
            SessionStateName::Mirroring,
        ]);
        let f = c.failed_with(e, true, at);
        lemma_told_states(c.outbox, f.outbox.last());
        let b = f.applied(SessionEvent::ChecksFailed, Some(e.message_text()), at);
        lemma_told_states(f.outbox, b.outbox.last());
        assert(told_states(b.outbox) =~= told_states(m.outbox) + seq![
            SessionStateName::Checking,
            SessionStateName::Failed,
        ]);
    }
}

/// Each link is released in its own way: a Bluetooth controller and an iPhone on USB as a whole,
/// an Android phone where its finger is, on the screen as it is shown. Input goes on over the
/// same link.
pub proof fn releases_go_over_the_link(m: SessionModel, size: (u32, u32))
    requires
        m.screen == Some(size),
    ensures
        m.release_work() is Ble <==> m.input is Ble,
        m.release_work() is IosUsb <==> m.input is IosUsb,
        m.release_work() is LiftFinger <==> m.input is Scrcpy && m.android_pointer is Some,
        m.release_work() matches ReleaseWork::LiftFinger { x, y, width, height }
            ==> m.android_pointer == Some((x, y)) && size == (width, height),
        m.after_release().input == m.input && m.after_release().state == m.state,
        m.input is Scrcpy ==> m.after_release().android_pointer is None,
        m.after_release().outbox == m.outbox && m.after_release().screen == m.screen,
{
}

/// The size of an Android picture is that of the screen that runs, else the last one that was
/// told, else a common one.
pub proof fn android_pictures_have_a_size(m: SessionModel)
    ensures
        m.screen is Some ==> Some(m.android_size()) == m.screen,
        m.screen is None && m.last_metadata is Some ==> Some(m.android_size()) == m.last_metadata,
        m.screen is None && m.last_metadata is None ==> m.android_size() == (1080u32, 2340u32),
        m.last_metadata is Some ==> Some(m.picture_size()) == m.last_metadata,
        m.last_metadata is None ==> m.picture_size() == (640u32, 480u32),
{
}

/// Ending control takes the link away and leaves the picture: a session that was in control
/// shows the picture again, and any other keeps its state.
pub proof fn ending_control_leaves_the_picture(m: SessionModel, at: Seq<char>)
    ensures
        ({
            let r = m.after_stop_control(at);
            &&& r.input is Absent
            &&& m.state is ControlReady ==> r.state is MirroringConnected
            &&& !(m.state is ControlReady) ==> r.state == m.state && r.outbox == m.outbox
            &&& r.mirror == m.mirror && r.screen == m.screen && r.last_metadata == m.last_metadata
                && r.prefs == m.prefs && r.error_log == m.error_log && r.last_error == m.last_error
        }),
{
}

/// Stopping releases the link, ends exactly what runs, and keeps what identifies the session. The
/// last that a session tells is then that it is idle; one that is idle or stops already has
/// nothing to do.
pub proof fn stopping_ends_what_runs(m: SessionModel, at: Seq<char>)
    ensures
        ({
            let w = m.stop_work();
            let r = m.after_stop(at);
            let live = !(m.state is Idle) && !(m.state is Stopping);
            &&& w.mirror <==> live && m.mirror
            &&& w.screen <==> live && m.screen is Some
            &&& w.test_frames <==> live && m.frame_test_mode
            &&& live ==> w.release == m.release_work()
            &&& !live ==> w.release is Nothing && r == m
            &&& r.id == m.id && r.kind == m.kind && r.prefs == m.prefs && r.uxplay_port
                == m.uxplay_port && r.error_log == m.error_log && r.last_error == m.last_error
                && r.frame_sink == m.frame_sink
            &&& live ==> r.since == at && (r.outbox.last() matches Notice::Session(v) && v.state
                is Idle)
            &&& live && m.mirror ==> r.last_metadata is None
        }),
{
    reveal_strlit("info");
    reveal_strlit("error");
    assert("info"@.len() != "error"@.len());
}

/// What is noted as an error is told and kept behind the errors before it; what is only
/// information is told and not kept.
pub proof fn errors_are_kept_and_told(
    m: SessionModel,
    level: Seq<char>,
    code: Seq<char>,
    message: Seq<char>,
    at: Seq<char>,
)
    ensures
        ({
            let r = m.logged(level, code, message, at);
            let e = entry(at, level, code, message);
            &&& e.at == at && e.level == level && e.code == code && e.message == message
            &&& level != "error"@ ==> r.outbox == m.outbox.push(Notice::Log(e)) && r.error_log
                == m.error_log
            &&& level == "error"@ ==> r.outbox == m.outbox.push(Notice::Log(e)).push(
                Notice::Error(e),
            )
            &&& level == "error"@ && m.error_log.len() < 200 ==> r.error_log == m.error_log.push(e)
            &&& level == "error"@ && m.error_log.len() == 200 ==> r.error_log
                == m.error_log.drop_first().push(e)
            &&& r == (SessionModel { outbox: r.outbox, error_log: r.error_log, ..m })
        }),
{
    let e = entry(at, level, code, message);
    if m.error_log.len() == 200 {
        assert(m.error_log.push(e).skip(1) =~= m.error_log.drop_first().push(e));
    }
}

/// A failure becomes the last error, with its code and words, and is told as an error; the state
/// stays until an event changes it.
pub proof fn failures_become_the_last_error(
    m: SessionModel,
    e: AdapterError<Seq<char>>,
    recoverable: bool,
    at: Seq<char>,
)
    ensures
        ({
            let r = m.failed_with(e, recoverable, at);
            &&& r.last_error matches Some(l) && l.code == e.code_text() && l.message
                == e.message_text() && l.recoverable == recoverable
            &&& r.outbox.len() == m.outbox.len() + 1
            &&& r.outbox.last() matches Notice::Error(n) && n.level == "error"@ && n.code
                == e.code_text() && n.message == e.message_text() && n.at == at
            &&& r.error_log.len() > 0 && r.outbox.last() == Notice::Error(r.error_log.last())
            &&& r.state == m.state && r.input == m.input && r.mirror == m.mirror
        }),
{
    let n = entry(at, "error"@, e.code_text(), e.message_text());
    error_log_is_bounded(SessionModel { last_error: m.failed_with(e, recoverable, at).last_error, ..m }, n);
    let s = m.error_log.push(n);
    if s.len() > ERROR_LOG_LIMIT {
        assert(s.skip(s.len() - ERROR_LOG_LIMIT).len() == ERROR_LOG_LIMIT);
    }
}

/// An event that the state takes is told with the state that it led to, the time and the detail;
/// one that it does not take changes nothing.
pub proof fn states_are_told_as_they_are(
    m: SessionModel,
    event: SessionEvent,
    detail: Option<Seq<char>>,
    at: Seq<char>,
)
    ensures
        ({
            let r = m.applied(event, detail, at);
            &&& state::next_state(m.state, event) is None ==> r == m
            &&& state::next_state(m.state, event) matches Some(next) ==> r.state == next && r.since
                == at && r.outbox.drop_last() == m.outbox && (r.outbox.last() matches
                Notice::Session(v) && v.state == next && v.since == at && v.detail == detail
                && v.last_error == m.last_error && v.control == state::control_of(next) && v.mirror
                == state::mirror_of(next))
            &&& r == (SessionModel { state: r.state, since: r.since, outbox: r.outbox, ..m })
        }),
{
    if state::next_state(m.state, event) is Some {
        assert(m.applied(event, detail, at).outbox.drop_last() =~= m.outbox);
    }
}

/// A picture that arrives: the connection or the first frame of a session that waits for one
/// leads to the picture, and of one that reconnects as well, which ends the reconnection.
/// Elsewhere they change no state.
pub proof fn pictures_arrive_where_they_are_awaited(m: SessionModel, at: Seq<char>)
    ensures
        ({
            let c = m.after_mirror_event(MirrorEvent::MirrorConnected, at);
            let f = m.after_mirror_event(MirrorEvent::FirstFrame, at);
            &&& m.state is Mirroring || m.state is Reconnecting ==> c.state is MirroringConnected
                && f.state is MirroringConnected && c.since == at && f.since == at
            &&& m.state is Reconnecting ==> !c.reconnect_armed && c.reconnect_attempts == 0
                && !f.reconnect_armed && f.reconnect_attempts == 0
            &&& !(m.state is Mirroring) && !(m.state is Reconnecting) ==> c == m && f.state
                == m.state && f.reconnect_armed == m.reconnect_armed
            &&& c.input == m.input && f.input == m.input && c.last_metadata == m.last_metadata
                && f.last_metadata == m.last_metadata
            &&& c.last_error == m.last_error && f.last_error == m.last_error && f.error_log
                == m.error_log && c.error_log == m.error_log
        }),
{
    reveal_strlit("info");
    reveal_strlit("error");
    assert("info"@.len() != "error"@.len());
}

/// The first frame starts control exactly where that is wished and the session shows a picture
/// without control afterwards, unless it has just come back. Nothing else that happens to a
/// picture starts control.
pub proof fn first_frames_start_control_where_wished(
    m: SessionModel,
    event: MirrorEvent<Seq<char>>,
    at: Seq<char>,
)
    ensures
        m.mirror_work(event, at).start_control <==> event is FirstFrame && m.prefs.auto_control && (
        m.state is Mirroring || m.state is MirroringConnected),
{
}

/// A picture that is lost: the session that showed it reconnects, one that waited for it fails
/// with the reason kept, and a reconnection is started once. Whatever still runs of the receiver
/// is stopped.
pub proof fn lost_pictures_are_sought_again(
    m: SessionModel,
    source: Seq<char>,
    code: Option<i32>,
    message: Seq<char>,
    at: Seq<char>,
)
    ensures
        ({
            let event = MirrorEvent::Crashed { source, exit_code: code };
            let c = m.after_mirror_event(event, at);
            let w = m.mirror_work(event, at);
            let s = m.after_stream_failure(message, at);
            &&& m.state is MirroringConnected ==> c.state is Reconnecting && s.state is Reconnecting
            &&& m.has_picture() ==> c.reconnect_armed && s.reconnect_armed
            &&& m.has_picture() && !m.reconnect_armed ==> c.reconnect_attempts == 0
                && s.reconnect_attempts == 0
            &&& m.state is Mirroring ==> c.state is Failed && s.state is Failed && c.reconnect_armed
                == m.reconnect_armed && s.reconnect_armed == m.reconnect_armed
            &&& m.state is Mirroring ==> c.last_error is Some && c.last_error->Some_0.recoverable
            &&& s.last_error == Some(
                manager::session_error(AdapterError::Failed(message), true),
            )
            &&& w.start_reconnect <==> !m.reconnect_armed && (m.state is MirroringConnected
                || m.state is ControlPairing || m.state is ControlReady)
            &&& w.stop_receiver <==> !(m.state is Idle) && !(m.state is Stopping) && !(m.state
                is Failed)
            &&& !m.mirror_work(MirrorEvent::FirstFrame, at).stop_receiver
            &&& !m.mirror_work(MirrorEvent::MirrorConnected, at).start_reconnect
        }),
{
}

/// The size of a picture is kept and told as it came, and a line of the process is told as it
/// came unless it is empty; neither changes the state.
pub proof fn sizes_and_lines_are_passed_on(
    m: SessionModel,
    width: u32,
    height: u32,
    line: Seq<char>,
    at: Seq<char>,
)
    ensures
        ({
            let s = m.after_mirror_event(MirrorEvent::Metadata { width, height }, at);
            let l = m.after_mirror_event(MirrorEvent::LogLine(line), at);
            &&& s.last_metadata == Some((width, height)) && s.outbox == m.outbox.push(
                Notice::Metadata { width, height },
            ) && s.state == m.state
            &&& line.len() == 0 ==> l == m
            &&& line.len() > 0 ==> l.outbox.len() == m.outbox.len() + 1 && (l.outbox.last() matches
                Notice::Log(e) && e.message == line && e.level == "info"@)
            &&& l == (SessionModel { outbox: l.outbox, ..m })
        }),
{
}

/// A reconnection makes five attempts, each counted, and then fails with the reason kept; one
/// that is no longer under way does nothing. The attempts before the last leave the session
/// reconnecting and note no error.
pub proof fn reconnections_make_five_attempts(m: SessionModel, at: Seq<char>)
    requires
        m.reconnect_attempts < u32::MAX,
    ensures
        m.may_try() <==> m.state is Reconnecting && m.reconnect_attempts <= 4,
        ({
            let r = m.after_round(at);
            &&& !(m.state is Reconnecting) ==> r == m
            &&& m.may_try() ==> r.reconnect_attempts == m.reconnect_attempts + 1 && r.state
                is Reconnecting && r.error_log == m.error_log && r.last_error == m.last_error
            &&& m.state is Reconnecting && !m.may_try() ==> r.state is Failed && r.last_error is Some
                && r.last_error->Some_0.recoverable && r.since == at
            &&& r.reconnect_armed == m.reconnect_armed && r.input == m.input
        }),
{
    reveal_strlit("info");
    reveal_strlit("error");
    assert("info"@.len() != "error"@.len());
}

/// The test picture runs exactly where it is wished and frames have somewhere to go; where they
/// have not, it is refused as busy.
pub proof fn test_pictures_need_somewhere_to_go(m: SessionModel, enabled: bool)
    ensures
        m.with_test_frames(enabled).frame_test_mode <==> enabled && m.frame_sink,
        m.test_frames_refusal(enabled) is Some <==> enabled && !m.frame_sink,
        m.test_frames_refusal(enabled) is Some ==> m.test_frames_refusal(enabled)->Some_0 is Busy,
        m.with_test_frames(enabled) == (SessionModel {
            frame_test_mode: m.with_test_frames(enabled).frame_test_mode,
            ..m
        }),
{
}

/// A new session is idle, has no link, no picture and nothing to tell, and keeps what it was
/// made with.
pub proof fn new_sessions_are_idle(id: Seq<char>, kind: DeviceKind, port: u16, at: Seq<char>)
    ensures
        ({
            let m = fresh(id, kind, port, at);
            &&& m.id == id && m.kind == kind && m.uxplay_port == port && m.since == at
            &&& m.state is Idle && m.input is Absent && !m.mirror && m.screen is None
            &&& m.outbox.len() == 0 && m.error_log.len() == 0 && m.last_error is None
                && m.last_metadata is None
            &&& !m.adb_drag && !m.ios_drag && m.android_pointer is None && !m.frame_sink
                && !m.frame_test_mode && !m.reconnect_armed && m.reconnect_attempts == 0
        }),
{
}

/// A pause is followed by an attempt only where the picture is still sought; it is told which
/// attempt it is, and nothing else changes. An attempt that fails is kept as the last error and
/// ends nothing.
pub proof fn attempts_follow_their_pause(
    m: SessionModel,
    attempt: u32,
    e: AdapterError<Seq<char>>,
    at: Seq<char>,
)
    ensures
        !(m.state is Reconnecting) ==> m.after_pause(attempt, at) == m,
        m.state is Reconnecting ==> {
            let n = m.after_pause(attempt, at);
            &&& n.state is Reconnecting && n.reconnect_attempts == m.reconnect_attempts
                && n.last_error == m.last_error
            &&& n.outbox.len() >= m.outbox.len() + 1
            &&& n.outbox[m.outbox.len() as int] matches Notice::Log(x) && x.at == at && x.level
                == "info"@ && x.code == "reconnect_started"@
        },
        ({
            let n = m.after_relaunch_failed(e, at);
            &&& n.state == m.state && n.reconnect_attempts == m.reconnect_attempts
                && n.reconnect_armed == m.reconnect_armed
            &&& n.last_error == Some(manager::session_error(e, true))
            &&& n.error_log.len() > 0 && n.error_log.last().message == e.message_text()
                && n.error_log.last().code == e.code_text()
        }),
{
    reveal_strlit("warn");
    reveal_strlit("error");
    reveal_strlit("info");
    assert("warn"@.len() != "error"@.len());
    assert("info"@.len() != "error"@.len());
    let n = m.after_relaunch_failed(e, at);
    let x = entry(at, "error"@, e.code_text(), e.message_text());
    assert(n.error_log.last() == x);
}

/// A phone is used where it was found; what stands in the way is reported, and a phone that is
/// not there is a failure.
pub proof fn phones_that_are_found_are_used(
    found: Result<Option<Seq<char>>, AdapterError<Seq<char>>>,
)
    ensures
        serial_failure(found) is None <==> (found matches Ok(s) && s is Some),
        found matches Err(e) ==> serial_failure(found) == Some(e),
        found matches Ok(s) ==> s is None ==> (serial_failure(found) matches Some(e) && e
            is Failed),
{
}

/// That a screen was started is told once and changes nothing else; the size of the screen is
/// named before that of the picture.
pub proof fn started_screens_are_told(m: SessionModel, width: u32, height: u32, at: Seq<char>)
    ensures
        ({
            let n = m.after_screen_started(width, height, at);
            let (w, h) = m.android_size();
            &&& n == (SessionModel { outbox: n.outbox, ..m })
            &&& n.outbox == m.outbox.push(
                Notice::Log(
                    entry(
                        at,
                        "info"@,
                        "screen_started"@,
                        "scrcpy-server → H264 → ffmpeg 已启动（等待真实首帧，设备 "@ + text::dec(
                            width as nat,
                        ) + "x"@ + text::dec(height as nat) + "，视频 "@ + text::dec(w as nat)
                            + "x"@ + text::dec(h as nat) + "）"@,
                    ),
                ),
            )
        }),
{
    reveal_strlit("error");
    reveal_strlit("info");
    assert("info"@.len() != "error"@.len());
    let n = m.after_screen_started(width, height, at);
    let (w, h) = m.android_size();
    let a = "scrcpy-server → H264 → ffmpeg 已启动（等待真实首帧，设备 "@;
    assert(a + size_text(width, height) + "，视频 "@ + size_text(w, h) + "）"@ =~= a + text::dec(
        width as nat,
    ) + "x"@ + text::dec(height as nat) + "，视频 "@ + text::dec(w as nat) + "x"@ + text::dec(
        h as nat,
    ) + "）"@);
}

/// The size of a picture is written across before down, and reads back.
pub proof fn written_sizes_read_back(width: u32, height: u32)
    ensures
        text::parted(size_text(width, height), 'x') == Some(
            (text::dec(width as nat), text::dec(height as nat)),
        ),
{
    let w = text::dec(width as nat);
    text::decimal_numbers_read_back(width as nat, u32::MAX as nat);
    assert(!w.contains('x')) by {
        if w.contains('x') {
            let j = choose|j: int| 0 <= j < w.len() && w[j] == 'x';
            assert(text::is_digit(w[j]));
        }
    }
    text::texts_are_parted_at_the_first(w, 'x', text::dec(height as nat));
    reveal_strlit("x");
    assert("x"@ =~= seq!['x']);
}

} // verus!
