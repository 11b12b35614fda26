//! The input that a session passes on: the pointer, the wheel, keys and pasted text.
//!
//! What is sent depends on the link: reports for a Bluetooth controller, requests for an
//! iPhone on USB, touches and key events for an Android phone.
use vstd::prelude::*;

use crate::integrations::adb;
use crate::integrations::clipboard_adapter;
use crate::integrations::clipboard_adapter::{
    run_paste_text_flow, PasteError, PasteOutcome, PasteResult,
};
use crate::integrations::hid_adapter::IHidController;
use crate::integrations::hid_report;
use crate::integrations::hid_report::{
    build_mouse_report, clamp_delta, key_down_up, usage_for_code, KeyboardReport, MouseReport,
    BTN_LEFT, MOD_ALT, MOD_CTRL, MOD_META, MOD_SHIFT,
};
use crate::integrations::text_encoder;
use crate::integrations::text_encoder::encode_ascii_text;
use crate::integrations::wda_requests::ScreenSize;
use crate::integrations::AdapterError;
use crate::session::device;
use crate::session::device::{
    keyboard_input_ready, DeviceKind, DeviceSession, InputKind, SessionModel,
};
use crate::session::manager;
use crate::session::state::SessionStateName;
use crate::text;

verus! {

/// What is sent for an input.
#[derive(Debug, Clone, PartialEq, Eq)]
pub enum InputAction<T = String> {
    Nothing,
    Mouse(MouseReport),
    /// Two keyboard reports, one after the other.
    Keyboard(KeyboardReport, KeyboardReport),
    TouchDown { x: u32, y: u32, width: u32, height: u32 },
    TouchMove { x: u32, y: u32, width: u32, height: u32 },
    TouchUp { x: u32, y: u32, width: u32, height: u32 },
    Scroll { x: u32, y: u32, width: u32, height: u32, ticks: i8 },
    /// A key event that goes down and up.
    Keycode { keycode: u32, metastate: u32 },
    UsbMove { source: ScreenSize, x: u32, y: u32 },
    UsbButton { source: ScreenSize, x: u32, y: u32, pressed: bool },
    UsbWheel { delta_y: i32 },
    /// The key stroke goes to the iPhone as it is.
    UsbKey { code: T, key: T, ctrl: bool, shift: bool, alt: bool, meta: bool },
}

impl View for InputAction<String> {
    type V = InputAction<Seq<char>>;

    open spec fn view(&self) -> InputAction<Seq<char>> {
        match *self {
            InputAction::Nothing => InputAction::Nothing,
            InputAction::Mouse(report) => InputAction::Mouse(report),
            InputAction::Keyboard(down, up) => InputAction::Keyboard(down, up),
            InputAction::TouchDown { x, y, width, height } => InputAction::TouchDown {
                x,
                y,
                width,
                height,
            },
            InputAction::TouchMove { x, y, width, height } => InputAction::TouchMove {
                x,
                y,
                width,
                height,
            },
            InputAction::TouchUp { x, y, width, height } => InputAction::TouchUp {
                x,
                y,
                width,
                height,
            },
            InputAction::Scroll { x, y, width, height, ticks } => InputAction::Scroll {
                x,
                y,
                width,
                height,
                ticks,
            },
            InputAction::Keycode { keycode, metastate } => InputAction::Keycode {
                keycode,
                metastate,
            },
            InputAction::UsbMove { source, x, y } => InputAction::UsbMove { source, x, y },
            InputAction::UsbButton { source, x, y, pressed } => InputAction::UsbButton {
                source,
                x,
                y,
                pressed,
            },
            InputAction::UsbWheel { delta_y } => InputAction::UsbWheel { delta_y },
            InputAction::UsbKey { code, key, ctrl, shift, alt, meta } => InputAction::UsbKey {
                code: code@,
                key: key@,
                ctrl,
                shift,
                alt,
                meta,
            },
        }
    }
}

/// Why input is not passed on; nothing where it is.
pub open spec fn input_obstacle(m: SessionModel) -> Option<AdapterError<Seq<char>>> {
    if !(m.state is ControlReady) {
        Some(AdapterError::ControlInactive("控制未连接，输入被忽略"@))
    } else if m.input is Absent {
        Some(AdapterError::ControlInactive("输入控制器不存在"@))
    } else {
        None
    }
}

/// What an input leads to: what is sent and what the session holds afterwards, or an error.
pub struct InputEffect {
    pub action: InputAction<Seq<char>>,
    pub after: SessionModel,
    pub error: Option<AdapterError<Seq<char>>>,
}

pub open spec fn sends(m: SessionModel, action: InputAction<Seq<char>>) -> InputEffect {
    InputEffect { action, after: m, error: None }
}

pub open spec fn refuses(m: SessionModel, e: AdapterError<Seq<char>>) -> InputEffect {
    InputEffect { action: InputAction::Nothing, after: m, error: Some(e) }
}

/// Whether a result is the one that an effect says.
pub open spec fn answers(r: Result<InputAction, AdapterError>, effect: InputEffect) -> bool {
    match r {
        Ok(a) => effect.error is None && a@ == effect.action,
        Err(e) => effect.error == Some(e@),
    }
}

pub open spec fn as_size(s: (u32, u32)) -> ScreenSize {
    ScreenSize { width: s.0, height: s.1 }
}

/// What moving the pointer leads to. Touches move only while a finger is down.
pub open spec fn move_effect(
    m: SessionModel,
    dx: i32,
    dy: i32,
    abs: Option<(u32, u32)>,
    source: Option<(u32, u32)>,
) -> InputEffect {
    match input_obstacle(m) {
        Some(e) => refuses(m, e),
        None => match m.input {
            InputKind::Ble => sends(
                m,
                InputAction::Mouse(
                    MouseReport {
                        buttons: 0,
                        dx: hid_report::clamped(dx as int) as i8,
                        dy: hid_report::clamped(dy as int) as i8,
                        wheel: 0,
                    },
                ),
            ),
            InputKind::Scrcpy => match abs {
                Some((x, y)) => if m.adb_drag {
                    let (width, height) = m.android_size();
                    sends(
                        SessionModel { android_pointer: Some((x, y)), ..m },
                        InputAction::TouchMove { x, y, width, height },
                    )
                } else {
                    sends(m, InputAction::Nothing)
                },
                None => sends(m, InputAction::Nothing),
            },
            InputKind::IosUsb => match (abs, source) {
                (Some((x, y)), Some(s)) => if m.ios_drag {
                    sends(m, InputAction::UsbMove { source: as_size(s), x, y })
                } else {
                    sends(m, InputAction::Nothing)
                },
                _ => sends(m, InputAction::Nothing),
            },
            InputKind::Absent => sends(m, InputAction::Nothing),
        },
    }
}

/// What pressing or releasing a button leads to. A phone knows only touches, so that only the
/// left button counts there.
pub open spec fn button_effect(
    m: SessionModel,
    button: u8,
    pressed: bool,
    abs: Option<(u32, u32)>,
    source: Option<(u32, u32)>,
) -> InputEffect {
    match input_obstacle(m) {
        Some(e) => refuses(m, e),
        None => match m.input {
            InputKind::Ble => sends(
                m,
                InputAction::Mouse(
                    MouseReport {
                        buttons: if pressed {
                            button
                        } else {
                            0
                        },
                        dx: 0,
                        dy: 0,
                        wheel: 0,
                    },
                ),
            ),
            InputKind::Scrcpy => if button != BTN_LEFT {
                sends(m, InputAction::Nothing)
            } else {
                match abs {
                    None => refuses(m, AdapterError::Failed("Android 触摸需要设备坐标"@)),
                    Some((x, y)) => {
                        let (width, height) = m.android_size();
                        if pressed {
                            sends(
                                SessionModel {
                                    adb_drag: true,
                                    android_pointer: Some((x, y)),
                                    ..m
                                },
                                InputAction::TouchDown { x, y, width, height },
                            )
                        } else {
                            sends(
                                SessionModel { adb_drag: false, android_pointer: None, ..m },
                                InputAction::TouchUp { x, y, width, height },
                            )
                        }
                    },
                }
            },
            InputKind::IosUsb => if button != BTN_LEFT {
                sends(m, InputAction::Nothing)
            } else {
                match abs {
                    None => refuses(
                        m,
                        AdapterError::Failed("iOS USB/WDA 触摸需要设备坐标"@),
                    ),
                    Some((x, y)) => match source {
                        None => refuses(
                            m,
                            AdapterError::Failed("iOS USB/WDA 触摸缺少画面尺寸"@),
                        ),
                        Some(s) => sends(
                            m,
                            InputAction::UsbButton { source: as_size(s), x, y, pressed },
                        ),
                    },
                }
            },
            InputKind::Absent => sends(m, InputAction::Nothing),
        },
    }
}

/// How many ticks a scroll makes: the distance in steps, rounded down.
pub open spec fn ticks_of(delta_y: i32, scroll_step: i32) -> int {
    let step: int = if scroll_step < 1 {
        1
    } else {
        scroll_step as int
    };
    hid_report::clamped(delta_y as int / step)
}

/// What scrolling leads to.
pub open spec fn wheel_effect(m: SessionModel, delta_y: i32) -> InputEffect {
    let ticks = ticks_of(delta_y, m.prefs.scroll_step) as i8;
    match input_obstacle(m) {
        Some(e) => refuses(m, e),
        None => match m.input {
            InputKind::Ble => sends(
                m,
                InputAction::Mouse(MouseReport { buttons: 0, dx: 0, dy: 0, wheel: ticks }),
            ),
            InputKind::IosUsb => sends(m, InputAction::UsbWheel { delta_y }),
            InputKind::Scrcpy => {
                let (width, height) = m.android_size();
                let (x, y) = match m.android_pointer {
                    Some(p) => p,
                    None => (width / 2, height / 2),
                };
                sends(m, InputAction::Scroll { x, y, width, height, ticks })
            },
            InputKind::Absent => sends(m, InputAction::Nothing),
        },
    }
}

/// The modifiers that are held, as the bits of a report.
pub open spec fn modifier_bits(ctrl: bool, shift: bool, alt: bool, meta: bool) -> u8 {
    ((if ctrl {
        1int
    } else {
        0
    }) + (if shift {
        2int
    } else {
        0
    }) + (if alt {
        4int
    } else {
        0
    }) + (if meta {
        8int
    } else {
        0
    })) as u8
}

/// The modifiers that are held, as an Android phone knows them.
pub open spec fn metastate_of(ctrl: bool, shift: bool, alt: bool, meta: bool) -> u32 {
    ((if shift {
        1int
    } else {
        0
    }) + (if alt {
        2int
    } else {
        0
    }) + (if ctrl {
        0x1000int
    } else {
        0
    }) + (if meta {
        0x10000int
    } else {
        0
    })) as u32
}

/// What stroking a key leads to.
pub open spec fn key_effect(
    m: SessionModel,
    code: Seq<char>,
    key: Seq<char>,
    ctrl: bool,
    shift: bool,
    alt: bool,
    meta: bool,
) -> InputEffect {
    match input_obstacle(m) {
        Some(e) => refuses(m, e),
        None => match m.input {
            InputKind::Ble => match hid_report::code_usage(code) {
                None => refuses(m, AdapterError::Failed("未映射的按键 code："@ + code)),
                Some(usage) => {
                    let mods = modifier_bits(ctrl, shift, alt, meta);
                    sends(
                        m,
                        InputAction::Keyboard(
                            hid_report::pressed(usage, mods),
                            hid_report::released(mods),
                        ),
                    )
                },
            },
            InputKind::IosUsb => sends(
                m,
                InputAction::UsbKey { code, key, ctrl, shift, alt, meta },
            ),
            InputKind::Scrcpy => match adb::keycode_number(code) {
                None => refuses(m, AdapterError::Failed("未映射的 Android 按键："@ + code)),
                Some(keycode) => sends(
                    m,
                    InputAction::Keycode {
                        keycode,
                        metastate: metastate_of(ctrl, shift, alt, meta),
                    },
                ),
            },
            InputKind::Absent => sends(m, InputAction::Nothing),
        },
    }
}

fn floor_steps(delta_y: i32, scroll_step: i32) -> (r: i8)
    ensures
        r == ticks_of(delta_y, scroll_step),
{
    let step: i64 = if scroll_step < 1 {
        1
    } else {
        scroll_step as i64
    };
    let d: i64 = delta_y as i64;
    let q: i64 = if d >= 0 {
        let q: i64 = d / step;
        assert(q <= d) by (nonlinear_arith)
            requires
                q == d / step,
                step >= 1,
                d >= 0,
        ;
        q
    } else {
        let up: i64 = (step - 1 - d) / step;
        proof {
            let n: int = step - 1 - d;
            let s: int = step as int;
            let u: int = up as int;
            vstd::arithmetic::div_mod::lemma_fundamental_div_mod(n, s);
            let rem: int = n % s;
            assert(n == s * u + rem);
            assert(0 <= rem < s) by (nonlinear_arith)
                requires
                    rem == n % s,
                    s >= 1,
            ;
            assert(d as int == (-u) * s + (s - 1 - rem)) by (nonlinear_arith)
                requires
                    n == s * u + rem,
                    n == s - 1 - d,
            ;
            vstd::arithmetic::div_mod::lemma_fundamental_div_mod_converse(
                d as int,
                s,
                -u,
                s - 1 - rem,
            );
            assert(0 <= u <= n) by (nonlinear_arith)
                requires
                    u == n / s,
                    s >= 1,
                    n >= 0,
            ;
            assert(u <= -d) by (nonlinear_arith)
                requires
                    n == s * u + rem,
                    n == s - 1 - d,
                    rem >= 0,
                    s >= 1,
                    d < 0,
            ;
        }
        -up
    };
    assert(q == d as int / step as int);
    clamp_delta(q as i32)
}

impl DeviceSession {
    fn check_input(&self) -> (r: Option<AdapterError>)
        ensures
            match r {
                Some(e) => input_obstacle(self@) == Some(e@),
                None => input_obstacle(self@) is None,
            },
    {
        let s = self.state.state();
        if !matches!(s, SessionStateName::ControlReady) {
            return Some(AdapterError::ControlInactive(text::own("控制未连接，输入被忽略")));
        }
        if matches!(self.input, InputKind::Absent) {
            return Some(AdapterError::ControlInactive(text::own("输入控制器不存在")));
        }
        None
    }

    /// Moves the pointer.
    pub fn send_pointer_move(
        &mut self,
        dx: i32,
        dy: i32,
        abs: Option<(u32, u32)>,
        source_size: Option<(u32, u32)>,
    ) -> (r: Result<InputAction, AdapterError>)
        ensures
            answers(r, move_effect(old(self)@, dx, dy, abs, source_size)),
            final(self)@ == move_effect(old(self)@, dx, dy, abs, source_size).after,
    {
        match self.check_input() {
            Some(e) => {
                return Err(e);
            },
            None => {},
        }
        match self.input {
            InputKind::Ble => Ok(
                InputAction::Mouse(build_mouse_report(0, clamp_delta(dx), clamp_delta(dy), 0)),
            ),
            InputKind::Scrcpy => match abs {
                Some((x, y)) => {
                    if !self.adb_drag {
                        return Ok(InputAction::Nothing);
                    }
                    let (width, height) = self.android_dimensions();
                    self.android_pointer = Some((x, y));
                    Ok(InputAction::TouchMove { x, y, width, height })
                },
                None => Ok(InputAction::Nothing),
            },
            InputKind::IosUsb => match (abs, source_size) {
                (Some((x, y)), Some((width, height))) => {
                    if self.ios_drag {
                        Ok(
                            InputAction::UsbMove { source: ScreenSize { width, height }, x, y },
                        )
                    } else {
                        Ok(InputAction::Nothing)
                    }
                },
                _ => Ok(InputAction::Nothing),
            },
            InputKind::Absent => Ok(InputAction::Nothing),
        }
    }

    /// Presses or releases a button.
    pub fn send_pointer_button(
        &mut self,
        button: u8,
        pressed: bool,
        abs: Option<(u32, u32)>,
        source_size: Option<(u32, u32)>,
    ) -> (r: Result<InputAction, AdapterError>)
        ensures
            answers(r, button_effect(old(self)@, button, pressed, abs, source_size)),
            final(self)@ == button_effect(old(self)@, button, pressed, abs, source_size).after,
    {
        match self.check_input() {
            Some(e) => {
                return Err(e);
            },
            None => {},
        }
        match self.input {
            InputKind::Ble => {
                let buttons: u8 = if pressed {
                    button
                } else {
                    0
                };
                Ok(InputAction::Mouse(build_mouse_report(buttons, 0, 0, 0)))
            },
            InputKind::Scrcpy => {
                if button != BTN_LEFT {
                    return Ok(InputAction::Nothing);
                }
                match abs {
                    None => Err(AdapterError::Failed(text::own("Android 触摸需要设备坐标"))),
                    Some((x, y)) => {
                        let (width, height) = self.android_dimensions();
                        if pressed {
                            self.adb_drag = true;
                            self.android_pointer = Some((x, y));
                            Ok(InputAction::TouchDown { x, y, width, height })
                        } else {
                            self.adb_drag = false;
                            self.android_pointer = None;
                            Ok(InputAction::TouchUp { x, y, width, height })
                        }
                    },
                }
            },
            InputKind::IosUsb => {
                if button != BTN_LEFT {
                    return Ok(InputAction::Nothing);
                }
                match abs {
                    None => Err(
                        AdapterError::Failed(text::own("iOS USB/WDA 触摸需要设备坐标")),
                    ),
                    Some((x, y)) => match source_size {
                        None => Err(
                            AdapterError::Failed(text::own("iOS USB/WDA 触摸缺少画面尺寸")),
                        ),
                        Some((width, height)) => Ok(
                            InputAction::UsbButton {
                                source: ScreenSize { width, height },
                                x,
                                y,
                                pressed,
                            },
                        ),
                    },
                }
            },
            InputKind::Absent => Ok(InputAction::Nothing),
        }
    }

    /// Notes what came of pressing or releasing the pointer of an iPhone on USB: only what was
    /// sent counts.
    pub fn usb_button_sent(&mut self, pressed: bool, sent: bool)
        ensures
            final(self)@ == (SessionModel {
                ios_drag: if sent {
                    pressed
                } else {
                    old(self)@.ios_drag
                },
                ..old(self)@
            }),
    {
        if sent {
            self.ios_drag = pressed;
        }
    }

    /// Scrolls.
    pub fn send_wheel(&mut self, delta_y: i32) -> (r: Result<InputAction, AdapterError>)
        ensures
            answers(r, wheel_effect(old(self)@, delta_y)),
            final(self)@ == old(self)@,
    {
        let ticks = floor_steps(delta_y, self.prefs.scroll_step);
        match self.check_input() {
            Some(e) => {
                return Err(e);
            },
            None => {},
        }
        match self.input {
            InputKind::Ble => Ok(InputAction::Mouse(build_mouse_report(0, 0, 0, ticks))),
            InputKind::IosUsb => Ok(InputAction::UsbWheel { delta_y }),
            InputKind::Scrcpy => {
                let (width, height) = self.android_dimensions();
                let (x, y) = match self.android_pointer {
                    Some(p) => p,
                    None => (width / 2, height / 2),
                };
                Ok(InputAction::Scroll { x, y, width, height, ticks })
            },
            InputKind::Absent => Ok(InputAction::Nothing),
        }
    }

    /// Strokes a key.
    pub fn send_key_stroke(
        &mut self,
        code: &str,
        key: &str,
        ctrl: bool,
        shift: bool,
        alt: bool,
        meta: bool,
    ) -> (r: Result<InputAction, AdapterError>)
        ensures
            answers(r, key_effect(old(self)@, code@, key@, ctrl, shift, alt, meta)),
            final(self)@ == old(self)@,
    {
        match self.check_input() {
            Some(e) => {
                return Err(e);
            },
            None => {},
        }
        match self.input {
            InputKind::Ble => match usage_for_code(code) {
                None => Err(AdapterError::Failed(text::cat2("未映射的按键 code：", code))),
                Some(usage) => {
                    let mut mods: u8 = 0;
                    if ctrl {
                        mods = mods + MOD_CTRL;
                    }
                    if shift {
                        mods = mods + MOD_SHIFT;
                    }
                    if alt {
                        mods = mods + MOD_ALT;
                    }
                    if meta {
                        mods = mods + MOD_META;
                    }
                    let pair = key_down_up(usage, mods);
                    assert(pair@[0] == hid_report::pressed(usage, mods));
                    assert(pair@[1] == hid_report::released(mods));
                    Ok(InputAction::Keyboard(pair[0], pair[1]))
                },
            },
            InputKind::IosUsb => Ok(
                InputAction::UsbKey {
                    code: text::own(code),
                    key: text::own(key),
                    ctrl,
                    shift,
                    alt,
                    meta,
                },
            ),
            InputKind::Scrcpy => match adb::android_keycode_value(code) {
                None => Err(
                    AdapterError::Failed(text::cat2("未映射的 Android 按键：", code)),
                ),
                Some(keycode) => {
                    let metastate = adb::android_metastate(ctrl, shift, alt, meta);
                    Ok(InputAction::Keycode { keycode, metastate })
                },
            },
            InputKind::Absent => Ok(InputAction::Nothing),
        }
    }
}

/// No input is passed on unless control stands, and then nothing of the session changes.
pub proof fn input_needs_control(
    m: SessionModel,
    dx: i32,
    dy: i32,
    button: u8,
    pressed: bool,
    abs: Option<(u32, u32)>,
    source: Option<(u32, u32)>,
    delta_y: i32,
    code: Seq<char>,
    key: Seq<char>,
    ctrl: bool,
    shift: bool,
    alt: bool,
    meta: bool,
)
    requires
        !(m.state is ControlReady) || m.input is Absent,
    ensures
        move_effect(m, dx, dy, abs, source) == refuses(m, input_obstacle(m)->Some_0),
        button_effect(m, button, pressed, abs, source) == refuses(m, input_obstacle(m)->Some_0),
        wheel_effect(m, delta_y) == refuses(m, input_obstacle(m)->Some_0),
        key_effect(m, code, key, ctrl, shift, alt, meta) == refuses(m, input_obstacle(m)->Some_0),
        input_obstacle(m) is Some,
{
}

/// Input is never told or logged, whether it is passed on or refused.
pub proof fn input_is_not_logged(
    m: SessionModel,
    dx: i32,
    dy: i32,
    button: u8,
    pressed: bool,
    abs: Option<(u32, u32)>,
    source: Option<(u32, u32)>,
    delta_y: i32,
    code: Seq<char>,
    key: Seq<char>,
    ctrl: bool,
    shift: bool,
    alt: bool,
    meta: bool,
)
    ensures
        move_effect(m, dx, dy, abs, source).after.outbox == m.outbox,
        move_effect(m, dx, dy, abs, source).after.error_log == m.error_log,
        button_effect(m, button, pressed, abs, source).after.outbox == m.outbox,
        button_effect(m, button, pressed, abs, source).after.error_log == m.error_log,
        wheel_effect(m, delta_y).after == m,
        key_effect(m, code, key, ctrl, shift, alt, meta).after == m,
{
}

/// A finger that goes down on an Android phone can be lifted again: the session knows where it
/// is until then.
pub proof fn fingers_are_followed(m: SessionModel, x: u32, y: u32)
    requires
        m.state is ControlReady,
        m.input is Scrcpy,
    ensures
        ({
            let down = button_effect(m, BTN_LEFT, true, Some((x, y)), None).after;
            &&& down.android_pointer == Some((x, y))
            &&& down.release_work() is LiftFinger
            &&& down.after_release().release_work() is Nothing
            &&& button_effect(down, BTN_LEFT, false, Some((x, y)), None).after.release_work()
                is Nothing
        }),
{
}

/// The link that an action belongs to; none where nothing is sent.
pub open spec fn link_of(action: InputAction<Seq<char>>) -> Option<InputKind> {
    match action {
        InputAction::Nothing => None,
        InputAction::Mouse(_) | InputAction::Keyboard(_, _) => Some(InputKind::Ble),
        InputAction::UsbMove { .. } | InputAction::UsbButton { .. } | InputAction::UsbWheel { .. }
        | InputAction::UsbKey { .. } => Some(InputKind::IosUsb),
        _ => Some(InputKind::Scrcpy),
    }
}

/// Whatever is sent goes over the link that the session has; a wheel and a known key are always
/// sent, and refused input sends nothing and changes nothing.
pub proof fn input_goes_over_the_link_of_the_session(
    m: SessionModel,
    dx: i32,
    dy: i32,
    button: u8,
    pressed: bool,
    abs: Option<(u32, u32)>,
    source: Option<(u32, u32)>,
    delta_y: i32,
    code: Seq<char>,
    key: Seq<char>,
    ctrl: bool,
    shift: bool,
    alt: bool,
    meta: bool,
)
    requires
        m.state is ControlReady,
        !(m.input is Absent),
    ensures
        ({
            let moved = move_effect(m, dx, dy, abs, source);
            let clicked = button_effect(m, button, pressed, abs, source);
            let turned = wheel_effect(m, delta_y);
            let stroked = key_effect(m, code, key, ctrl, shift, alt, meta);
            &&& moved.error is None
            &&& link_of(moved.action) is None || link_of(moved.action) == Some(m.input)
            &&& link_of(clicked.action) is None || link_of(clicked.action) == Some(m.input)
            &&& clicked.error is Some ==> clicked.action is Nothing && clicked.after == m
            &&& turned.error is None && link_of(turned.action) == Some(m.input)
            &&& stroked.error is None ==> link_of(stroked.action) == Some(m.input)
            &&& stroked.error is Some ==> stroked.action is Nothing && !(m.input is IosUsb)
            &&& moved.after == (SessionModel { android_pointer: moved.after.android_pointer, ..m })
            &&& clicked.after == (SessionModel {
                android_pointer: clicked.after.android_pointer,
                adb_drag: clicked.after.adb_drag,
                ..m
            })
        }),
{
}

/// A finger on an Android phone: pressing puts it down where the pointer is, moving draws it
/// along while it is down and does nothing once it is up, and releasing lifts it where the
/// pointer is then. All are measured on the screen that is shown. Only the left button touches,
/// and it needs a position.
pub proof fn fingers_follow_the_pointer_on_android(
    m: SessionModel,
    from: (u32, u32),
    to: (u32, u32),
    end: (u32, u32),
    button: u8,
    dx: i32,
    dy: i32,
    size: (u32, u32),
    source: Option<(u32, u32)>,
)
    requires
        m.state is ControlReady,
        m.input is Scrcpy,
        m.screen == Some(size),
    ensures
        ({
            let down = button_effect(m, BTN_LEFT, true, Some(from), source);
            let moved = move_effect(down.after, dx, dy, Some(to), source);
            let up = button_effect(moved.after, BTN_LEFT, false, Some(end), source);
            let hover = move_effect(up.after, dx, dy, Some(to), source);
            &&& down.action matches InputAction::TouchDown { x, y, width, height } && (x, y) == from
                && (width, height) == size
            &&& moved.action matches InputAction::TouchMove { x, y, width, height } && (x, y) == to
                && (width, height) == size
            &&& up.action matches InputAction::TouchUp { x, y, width, height } && (x, y) == end && (
            width, height) == size
            &&& down.after.android_pointer == Some(from) && moved.after.android_pointer == Some(to)
            &&& up.after.android_pointer is None && hover.action is Nothing && hover.after
                == up.after
            &&& move_effect(down.after, dx, dy, None, source).action is Nothing
            &&& button_effect(m, BTN_LEFT, true, None, source).error matches Some(
                AdapterError::Failed(_),
            )
        }),
        button != 1 ==> button_effect(m, button, true, Some(from), source).action is Nothing
            && button_effect(m, button, true, Some(from), source).after == m,
        button != 1 ==> button_effect(m, button, false, None, source).error is None,
        !m.adb_drag ==> move_effect(m, dx, dy, Some(from), source).action is Nothing,
{
}

/// A finger on an iPhone on USB: pressing, moving and releasing are sent with the position and
/// the size of the picture as they are given. A finger counts as down once the press went
/// through, and moves only then. Only the left button touches, and it needs a position and a
/// size.
pub proof fn fingers_follow_the_pointer_on_usb(
    m: SessionModel,
    at: (u32, u32),
    size: (u32, u32),
    button: u8,
    pressed: bool,
    dx: i32,
    dy: i32,
)
    requires
        m.state is ControlReady,
        m.input is IosUsb,
    ensures
        button_effect(m, BTN_LEFT, pressed, Some(at), Some(size)).action matches
            InputAction::UsbButton { source, x, y, pressed: sent } && sent == pressed && (x, y)
            == at && (source.width, source.height) == size,
        m.ios_drag ==> (move_effect(m, dx, dy, Some(at), Some(size)).action matches
            InputAction::UsbMove { source, x, y } && (x, y) == at && (source.width, source.height)
            == size),
        !m.ios_drag ==> move_effect(m, dx, dy, Some(at), Some(size)).action is Nothing,
        button_effect(m, BTN_LEFT, pressed, None, Some(size)).error matches Some(
            AdapterError::Failed(_),
        ),
        button_effect(m, BTN_LEFT, pressed, Some(at), None).error matches Some(
            AdapterError::Failed(_),
        ),
        button != 1 ==> button_effect(m, button, pressed, Some(at), Some(size)).action is Nothing,
{
}

/// A mouse over Bluetooth: moving reports the distance in its own direction as far as a report
/// holds it, pressing reports the button and releasing none, and neither turns the wheel. The
/// position does not matter.
pub proof fn mice_report_what_the_pointer_does(
    m: SessionModel,
    dx: i32,
    dy: i32,
    button: u8,
    a: Option<(u32, u32)>,
    b: Option<(u32, u32)>,
    source: Option<(u32, u32)>,
)
    requires
        m.state is ControlReady,
        m.input is Ble,
    ensures
        move_effect(m, dx, dy, a, source).action matches InputAction::Mouse(r) && r.buttons == 0
            && r.wheel == 0 && (-127 <= dx <= 127 ==> r.dx == dx) && (-127 <= dy <= 127 ==> r.dy
            == dy) && (dx > 127 ==> r.dx == 127) && (dy > 127 ==> r.dy == 127) && (dx < -127
            ==> r.dx == -127) && (dy < -127 ==> r.dy == -127),
        button_effect(m, button, true, a, source).action matches InputAction::Mouse(r) && r.buttons
            == button && r.dx == 0 && r.dy == 0 && r.wheel == 0,
        button_effect(m, button, false, a, source).action matches InputAction::Mouse(r)
            && r.buttons == 0 && r.dx == 0 && r.dy == 0 && r.wheel == 0,
        move_effect(m, dx, dy, a, source) == move_effect(m, dx, dy, b, None),
        button_effect(m, button, true, a, source) == button_effect(m, button, true, b, None),
{
}

/// A wheel makes as many ticks as whole steps lie in the distance, counted downwards, as far as
/// a report holds them. An Android phone scrolls where the finger is, or in the middle of the
/// screen; an iPhone on USB gets the distance itself.
pub proof fn wheels_turn_by_whole_steps(m: SessionModel, delta_y: i32, size: (u32, u32), n: int)
    requires
        m.state is ControlReady,
        m.screen == Some(size),
        m.prefs.scroll_step >= 1,
        -127 <= n <= 127,
        n * m.prefs.scroll_step <= delta_y < (n + 1) * m.prefs.scroll_step,
    ensures
        m.input is Ble ==> (wheel_effect(m, delta_y).action matches InputAction::Mouse(r) && r.wheel
            == n && r.buttons == 0 && r.dx == 0 && r.dy == 0),
        m.input is Scrcpy ==> (wheel_effect(m, delta_y).action matches InputAction::Scroll {
            x,
            y,
            width,
            height,
            ticks,
        } && ticks == n && (width, height) == size && (m.android_pointer is Some ==> Some((x, y))
            == m.android_pointer) && (m.android_pointer is None ==> 2 * x <= width < 2 * x + 2 && 2
            * y <= height < 2 * y + 2)),
        m.input is IosUsb ==> (wheel_effect(m, delta_y).action matches InputAction::UsbWheel {
            delta_y: d,
        } && d == delta_y),
{
    let step: int = m.prefs.scroll_step as int;
    let rem: int = delta_y - n * step;
    assert((n + 1) * step == n * step + step) by (nonlinear_arith);
    vstd::arithmetic::div_mod::lemma_fundamental_div_mod_converse(delta_y as int, step, n, rem);
}

/// Further distances turn the wheel to the end of a report, each in its own direction; a step
/// that is none counts as one.
pub proof fn long_turns_end_at_the_limit(delta_y: i32, scroll_step: i32)
    ensures
        scroll_step >= 1 && delta_y >= 128 * scroll_step ==> ticks_of(delta_y, scroll_step) == 127,
        scroll_step >= 1 && delta_y < -127 * scroll_step ==> ticks_of(delta_y, scroll_step) == -127,
        scroll_step < 1 && -127 <= delta_y <= 127 ==> ticks_of(delta_y, scroll_step) == delta_y,
        scroll_step < 1 && delta_y > 127 ==> ticks_of(delta_y, scroll_step) == 127,
        scroll_step < 1 && delta_y < -127 ==> ticks_of(delta_y, scroll_step) == -127,
{
    if scroll_step >= 1 {
        let d: int = delta_y as int;
        let s: int = scroll_step as int;
        let q: int = d / s;
        vstd::arithmetic::div_mod::lemma_fundamental_div_mod(d, s);
        vstd::arithmetic::div_mod::lemma_mod_bound(d, s);
        let rem: int = d % s;
        if d >= 128 * s {
            assert(q >= 128) by (nonlinear_arith)
                requires
                    d == s * q + rem,
                    0 <= rem < s,
                    d >= 128 * s,
                    s >= 1,
            ;
        }
        if d < -127 * s {
            assert(q < -127) by (nonlinear_arith)
                requires
                    d == s * q + rem,
                    0 <= rem < s,
                    d < -127 * s,
                    s >= 1,
            ;
        }
    }
}

/// A stroke over Bluetooth presses the one key that stands under the code and then lets it go,
/// with the modifiers held through both: Ctrl is the lowest bit, then Shift, Alt and Meta. A
/// code without a key is refused.
pub proof fn strokes_press_and_release_one_key(
    m: SessionModel,
    code: Seq<char>,
    key: Seq<char>,
    ctrl: bool,
    shift: bool,
    alt: bool,
    meta: bool,
)
    requires
        m.state is ControlReady,
        m.input is Ble,
    ensures
        ({
            let stroke = key_effect(m, code, key, ctrl, shift, alt, meta);
            match hid_report::code_usage(code) {
                None => stroke.error matches Some(AdapterError::Failed(_)),
                Some(usage) => stroke.action matches InputAction::Keyboard(down, up) && down.keys@
                    == seq![usage, 0, 0, 0, 0, 0] && up.keys@ == seq![0u8, 0, 0, 0, 0, 0]
                    && down.modifiers == up.modifiers && down.modifiers < 16 && (down.modifiers % 2
                    == 1 <==> ctrl) && ((down.modifiers / 2) % 2 == 1 <==> shift) && ((
                down.modifiers / 4) % 2 == 1 <==> alt) && ((down.modifiers / 8) % 2 == 1 <==> meta),
            }
        }),
{
    if let Some(usage) = hid_report::code_usage(code) {
        let mods = modifier_bits(ctrl, shift, alt, meta);
        assert(hid_report::pressed(usage, mods).keys@ =~= seq![usage, 0, 0, 0, 0, 0]);
        assert(hid_report::released(mods).keys@ =~= seq![0u8, 0, 0, 0, 0, 0]);
    }
}

/// A stroke on an Android phone is the key event that stands under the code, with the modifiers
/// in the bits that Android gives them. A code without a key event is refused.
pub proof fn strokes_are_key_events_on_android(
    m: SessionModel,
    code: Seq<char>,
    key: Seq<char>,
    ctrl: bool,
    shift: bool,
    alt: bool,
    meta: bool,
)
    requires
        m.state is ControlReady,
        m.input is Scrcpy,
    ensures
        ({
            let stroke = key_effect(m, code, key, ctrl, shift, alt, meta);
            match adb::keycode_number(code) {
                None => stroke.error matches Some(AdapterError::Failed(_)),
                Some(number) => stroke.action matches InputAction::Keycode { keycode, metastate }
                    && keycode == number && (metastate % 2 == 1 <==> shift) && ((metastate / 2) % 2
                    == 1 <==> alt) && ((metastate / 0x1000) % 2 == 1 <==> ctrl) && ((metastate
                    / 0x10000) % 2 == 1 <==> meta) && (!ctrl && !shift && !alt && !meta
                    ==> metastate == 0),
            }
        }),
{
}

/// A stroke on an iPhone on USB is passed on as it is.
pub proof fn strokes_pass_as_they_are_on_usb(
    m: SessionModel,
    code: Seq<char>,
    key: Seq<char>,
    ctrl: bool,
    shift: bool,
    alt: bool,
    meta: bool,
)
    requires
        m.state is ControlReady,
        m.input is IosUsb,
    ensures
        key_effect(m, code, key, ctrl, shift, alt, meta).action matches InputAction::UsbKey {
            code: c,
            key: k,
            ctrl: a,
            shift: b,
            alt: d,
            meta: e,
        } && c == code && k == key && a == ctrl && b == shift && d == alt && e == meta,
{
}

// ---------------------------------------------------------------------------
// Pasting
// ---------------------------------------------------------------------------

/// How a text is pasted.
#[derive(Debug)]
pub enum PasteRoute {
    /// It is not; this came of it.
    Finished(PasteResult),
    /// The Bluetooth controller types it.
    Ble,
    /// It is sent to the iPhone on USB.
    Usb,
    /// It is sent over the control channel.
    Scrcpy,
}

/// The contents of how a text is pasted.
pub enum PasteWay {
    Finished(PasteOutcome),
    Ble,
    Usb,
    Scrcpy,
}

impl View for PasteRoute {
    type V = PasteWay;

    open spec fn view(&self) -> PasteWay {
        match self {
            PasteRoute::Finished(r) => PasteWay::Finished(r@),
            PasteRoute::Ble => PasteWay::Ble,
            PasteRoute::Usb => PasteWay::Usb,
            PasteRoute::Scrcpy => PasteWay::Scrcpy,
        }
    }
}

/// What is said of a text that is too long.
pub open spec fn too_long(s: Seq<char>, max: nat) -> PasteOutcome {
    PasteOutcome {
        byte_count: text::byte_length(s),
        ..clipboard_adapter::refused(
            "paste_oversized"@,
            "剪贴板文本 "@ + text::dec(text::byte_length(s)) + " 字节超过限制 "@ + text::dec(max)
                + " 字节；MVP 不静默截断，请手动分段"@,
        )
    }
}

/// How a text of the clipboard is pasted.
pub open spec fn paste_way(
    m: SessionModel,
    clipboard: Result<Seq<char>, AdapterError<Seq<char>>>,
    max: nat,
    token: u64,
) -> PasteWay {
    let inactive = |s: Seq<char>|
        PasteWay::Finished(clipboard_adapter::refused("control_inactive"@, s));
    match clipboard {
        Err(e) => PasteWay::Finished(
            clipboard_adapter::refused("clipboard_read_failed"@, e.message_text()),
        ),
        Ok(s) => if s.len() == 0 {
            PasteWay::Finished(
                clipboard_adapter::refused("clipboard_empty"@, "剪贴板中没有可粘贴的纯文本"@),
            )
        } else if text::byte_length(s) > max {
            PasteWay::Finished(too_long(s, max))
        } else {
            match (m.kind, m.input) {
                (DeviceKind::Iphone, InputKind::Ble) => PasteWay::Ble,
                (DeviceKind::Iphone, InputKind::IosUsb) => if token != m.paste_token {
                    inactive("粘贴已取消（控制已停止）"@)
                } else {
                    PasteWay::Usb
                },
                (DeviceKind::Iphone, _) => inactive("iOS 控制器不存在"@),
                (DeviceKind::Android, InputKind::Scrcpy) => if token != m.paste_token {
                    inactive("粘贴已取消（控制已停止）"@)
                } else {
                    PasteWay::Scrcpy
                },
                (DeviceKind::Android, _) => inactive("scrcpy 控制器不存在"@),
            }
        },
    }
}

/// After a paste: what came of it is logged, but nothing of the text.
pub open spec fn after_paste(m: SessionModel, r: PasteOutcome, at: Seq<char>) -> SessionModel {
    if r.ok {
        m.logged("info"@, "paste_completed"@, "粘贴已发送"@, at)
    } else {
        match r.error {
            Some(e) => m.logged(
                "warn"@,
                "paste_failed"@,
                "粘贴失败（"@ + e.code + "）："@ + e.message,
                at,
            ),
            None => m,
        }
    }
}

/// After it was decided how a text is pasted.
pub open spec fn after_way(m: SessionModel, way: PasteWay, at: Seq<char>) -> SessionModel {
    match way {
        PasteWay::Finished(r) => after_paste(m, r, at),
        _ => m,
    }
}

/// Why a Bluetooth controller does not type a text; nothing where it does.
pub open spec fn typing_objection(s: Seq<char>, mask: u8) -> Option<PasteOutcome> {
    let bad = text_encoder::untyped_positions(s);
    if !device::keyboard_subscribed(mask) {
        Some(
            PasteOutcome {
                char_count: text_encoder::utf16_length(s),
                byte_count: text::byte_length(s),
                ..clipboard_adapter::refused(
                    "keyboard_report_not_ready"@,
                    "iOS BLE 当前未订阅键盘输入报告（掩码 0x"@ + text::hex(mask as nat, 2, true)
                        + "），本次粘贴未发送；中英文混合文本请在设置中启用 USB/WDA 精确控制，并重新启用控制"@,
                )
            },
        )
    } else if bad.len() > 0 {
        Some(
            PasteOutcome {
                char_count: text_encoder::utf16_length(s),
                byte_count: text::byte_length(s),
                unencodable_positions: bad,
                ..clipboard_adapter::refused(
                    "unencodable_chars"@,
                    "有 "@ + text::dec(bad.len())
                        + " 个字符（中文、Emoji 或其他 Unicode）无法通过 BLE HID 键盘表达，未发送；中英文混合文本请在设置中启用 USB/WDA 精确控制，并重新启用控制"@,
                )
            },
        )
    } else {
        None
    }
}

/// What comes of sending a text as a whole; `before` names what failed.
pub open spec fn sent_text(
    count: nat,
    bytes: nat,
    failure: Option<AdapterError<Seq<char>>>,
    before: Seq<char>,
) -> PasteOutcome {
    match failure {
        None => clipboard_adapter::sent_whole(count, bytes),
        Some(e) => PasteOutcome {
            ok: false,
            char_count: count,
            byte_count: bytes,
            truncated: true,
            unencodable_positions: Seq::empty(),
            error: Some(PasteError { code: e.code_text(), message: before + e.message_text() }),
        },
    }
}

fn send_result(
    count: usize,
    bytes: usize,
    sent: Result<(), AdapterError>,
    before: &str,
) -> (r: PasteResult)
    ensures
        r@ == sent_text(count as nat, bytes as nat, device::step_failure(sent), before@),
{
    match sent {
        Ok(_) => PasteResult::complete(count, bytes),
        Err(e) => {
            let r = PasteResult {
                ok: false,
                char_count: count,
                byte_count: bytes,
                truncated: true,
                unencodable_positions: Vec::new(),
                error: Some(
                    PasteError {
                        code: text::own(e.code()),
                        message: text::cat2(before, e.message().as_str()),
                    },
                ),
            };
            assert(r@.unencodable_positions =~= Seq::<nat>::empty());
            r
        },
    }
}

impl DeviceSession {
    fn finish_paste(&mut self, result: &PasteResult, at: &str)
        ensures
            final(self)@ == after_paste(old(self)@, result@, at@),
    {
        if result.ok {
            self.emit_log("info", "paste_completed", "粘贴已发送", at);
        } else {
            match &result.error {
                Some(e) => {
                    let message = text::cat4(
                        "粘贴失败（",
                        e.code.as_str(),
                        "）：",
                        e.message.as_str(),
                    );
                    self.emit_log("warn", "paste_failed", message.as_str(), at);
                },
                None => {},
            }
        }
    }

    /// Begins a paste: gives the limit and the token to go on with. The clipboard is read only
    /// after this.
    pub fn begin_paste(&mut self, max_bytes: Option<usize>, at: &str) -> (r: Result<
        (usize, u64),
        PasteResult,
    >)
        ensures
            match r {
                Ok((max, token)) => old(self)@.state is ControlReady && final(self)@ == old(self)@
                    && token == old(self)@.paste_token && max == (match max_bytes {
                    Some(m) => m,
                    None => old(self)@.prefs.max_paste_bytes,
                }),
                Err(p) => !(old(self)@.state is ControlReady) && p@ == clipboard_adapter::refused(
                    "control_inactive"@,
                    "控制未连接，无法粘贴"@,
                ) && final(self)@ == after_paste(old(self)@, p@, at@),
            },
    {
        let s = self.state.state();
        if !matches!(s, SessionStateName::ControlReady) {
            let p = PasteResult::rejected("control_inactive", "控制未连接，无法粘贴");
            self.finish_paste(&p, at);
            return Err(p);
        }
        let max: usize = match max_bytes {
            Some(m) => m,
            None => self.prefs.max_paste_bytes,
        };
        Ok((max, self.paste_token))
    }

    /// Decides how the text of the clipboard is pasted.
    pub fn paste(
        &mut self,
        clipboard: &Result<String, AdapterError>,
        max: usize,
        token: u64,
        at: &str,
    ) -> (r: PasteRoute)
        ensures
            ({
                let c = match clipboard {
                    Ok(s) => Ok(s@),
                    Err(e) => Err(e@),
                };
                r@ == paste_way(old(self)@, c, max as nat, token) && final(self)@ == after_way(
                    old(self)@,
                    r@,
                    at@,
                )
            }),
    {
        let refused = match clipboard {
            Err(e) => PasteResult::rejected("clipboard_read_failed", e.message().as_str()),
            Ok(s) => {
                let n: usize = text::byte_len(s.as_str());
                if s.as_str().is_empty() {
                    PasteResult::rejected("clipboard_empty", "剪贴板中没有可粘贴的纯文本")
                } else if n > max {
                    let message = text::cat5(
                        "剪贴板文本 ",
                        text::decimal(n as u64).as_str(),
                        " 字节超过限制 ",
                        text::decimal(max as u64).as_str(),
                        " 字节；MVP 不静默截断，请手动分段",
                    );
                    let mut p = PasteResult::rejected("paste_oversized", message.as_str());
                    p.byte_count = n;
                    p
                } else {
                    let current = token == self.paste_token;
                    match (self.kind, self.input) {
                        (DeviceKind::Iphone, InputKind::Ble) => {
                            return PasteRoute::Ble;
                        },
                        (DeviceKind::Iphone, InputKind::IosUsb) => {
                            if current {
                                return PasteRoute::Usb;
                            }
                            PasteResult::rejected("control_inactive", "粘贴已取消（控制已停止）")
                        },
                        (DeviceKind::Iphone, _) => PasteResult::rejected(
                            "control_inactive",
                            "iOS 控制器不存在",
                        ),
                        (DeviceKind::Android, InputKind::Scrcpy) => {
                            if current {
                                return PasteRoute::Scrcpy;
                            }
                            PasteResult::rejected("control_inactive", "粘贴已取消（控制已停止）")
                        },
                        (DeviceKind::Android, _) => PasteResult::rejected(
                            "control_inactive",
                            "scrcpy 控制器不存在",
                        ),
                    }
                }
            },
        };
        self.finish_paste(&refused, at);
        PasteRoute::Finished(refused)
    }

    /// Pastes a text through a Bluetooth controller; `mask` says what the phone has subscribed
    /// to. Positions in a text are 32-bit numbers, so that it may have at most that many UTF-16
    /// units.
    pub fn paste_ble<H: IHidController>(
        &mut self,
        s: &str,
        mask: u8,
        hid: &mut H,
        at: &str,
    ) -> (r: PasteResult)
        requires
            s@.len() > 0,
            text_encoder::utf16_length(s@) <= u32::MAX,
        ensures
            match typing_objection(s@, mask) {
                Some(p) => r@ == p && final(hid).given() == old(hid).given(),
                None => clipboard_adapter::typed(
                    old(hid).given(),
                    final(hid).given(),
                    text_encoder::keys_of(s@),
                    text_encoder::utf16_length(s@),
                    text::byte_length(s@),
                    r@,
                ),
            },
            final(self)@ == after_paste(old(self)@, r@, at@),
    {
        let enc = encode_ascii_text(s);
        let result = if !keyboard_input_ready(mask) {
            let message = text::cat3(
                "iOS BLE 当前未订阅键盘输入报告（掩码 0x",
                text::hex_text(mask as u64, 2, true).as_str(),
                "），本次粘贴未发送；中英文混合文本请在设置中启用 USB/WDA 精确控制，并重新启用控制",
            );
            let mut p = PasteResult::rejected("keyboard_report_not_ready", message.as_str());
            p.char_count = enc.char_count;
            p.byte_count = enc.byte_count;
            p
        } else if enc.unencodable_positions.len() > 0 {
            let count = text::decimal(enc.unencodable_positions.len() as u64);
            let message = text::cat3(
                "有 ",
                count.as_str(),
                " 个字符（中文、Emoji 或其他 Unicode）无法通过 BLE HID 键盘表达，未发送；中英文混合文本请在设置中启用 USB/WDA 精确控制，并重新启用控制",
            );
            assert(text_encoder::numbers(enc.unencodable_positions@).len()
                == enc.unencodable_positions@.len());
            let mut p = PasteResult::rejected("unencodable_chars", message.as_str());
            p.char_count = enc.char_count;
            p.byte_count = enc.byte_count;
            p.unencodable_positions = enc.unencodable_positions;
            p
        } else {
            assert(text_encoder::numbers(enc.unencodable_positions@).len() == 0);
            let limit: usize = enc.byte_count;
            run_paste_text_flow(s, hid, limit, 0, 0)
        };
        self.finish_paste(&result, at);
        result
    }

    /// Notes what came of sending a text to an iPhone on USB.
    pub fn paste_sent_usb(&mut self, s: &str, sent: Result<(), AdapterError>, at: &str) -> (r:
        PasteResult)
        ensures
            r@ == sent_text(
                text_encoder::utf16_length(s@),
                text::byte_length(s@),
                device::step_failure(sent),
                "iOS USB/WDA 输入失败："@,
            ),
            final(self)@ == after_paste(old(self)@, r@, at@),
    {
        let r = send_result(
            text_encoder::utf16_len(s),
            text::byte_len(s),
            sent,
            "iOS USB/WDA 输入失败：",
        );
        self.finish_paste(&r, at);
        r
    }

    /// Notes what came of sending a text over the control channel.
    pub fn paste_sent_scrcpy(&mut self, s: &str, sent: Result<(), AdapterError>, at: &str) -> (r:
        PasteResult)
        ensures
            r@ == sent_text(
                s@.len(),
                text::byte_length(s@),
                device::step_failure(sent),
                "Android 输入失败："@,
            ),
            final(self)@ == after_paste(old(self)@, r@, at@),
    {
        let r = send_result(
            text::chars_of(s).len(),
            text::byte_len(s),
            sent,
            "Android 输入失败：",
        );
        self.finish_paste(&r, at);
        r
    }
}

/// A text is pasted over the link that the session has, and exactly where the clipboard could be
/// read, holds something, is no longer than the limit, and, but for a Bluetooth controller,
/// where the control that the paste began with still stands.
pub proof fn pastes_take_the_link_of_the_session(
    m: SessionModel,
    clipboard: Result<Seq<char>, AdapterError<Seq<char>>>,
    max: nat,
    token: u64,
)
    ensures
        ({
            let way = paste_way(m, clipboard, max, token);
            let fits = clipboard matches Ok(s) && 0 < s.len() && text::byte_length(s) <= max;
            &&& way is Ble <==> fits && m.kind is Iphone && m.input is Ble
            &&& way is Usb <==> fits && m.kind is Iphone && m.input is IosUsb && token
                == m.paste_token
            &&& way is Scrcpy <==> fits && m.kind is Android && m.input is Scrcpy && token
                == m.paste_token
        }),
{
}

/// A paste that does not happen says why, the first reason of: the clipboard could not be read,
/// it is empty, it is too long, control does not stand. It never counts as sent.
pub proof fn pastes_that_fail_say_why(
    m: SessionModel,
    clipboard: Result<Seq<char>, AdapterError<Seq<char>>>,
    max: nat,
    token: u64,
)
    ensures
        paste_way(m, clipboard, max, token) matches PasteWay::Finished(r) ==> !r.ok && !r.truncated
            && r.char_count == 0 && r.unencodable_positions.len() == 0 && r.error is Some && ({
            let code = r.error->Some_0.code;
            &&& code == (match clipboard {
                Err(_) => "clipboard_read_failed"@,
                Ok(s) => if s.len() == 0 {
                    "clipboard_empty"@
                } else if text::byte_length(s) > max {
                    "paste_oversized"@
                } else {
                    "control_inactive"@
                },
            })
            &&& clipboard is Ok && text::byte_length(clipboard->Ok_0) > max && 0
                < clipboard->Ok_0.len() ==> r.byte_count == text::byte_length(clipboard->Ok_0)
        }),
{
}

/// A Bluetooth controller types a text exactly where the phone listens to a keyboard and the
/// keyboard has every character; otherwise nothing counts as sent, and a phone that does not
/// listen is the first reason.
pub proof fn keyboards_type_what_they_have(s: Seq<char>, mask: u8)
    ensures
        typing_objection(s, mask) is None <==> device::keyboard_subscribed(mask) && forall|k: int|
            0 <= k < s.len() ==> hid_report::on_keyboard(#[trigger] s[k]),
        typing_objection(s, mask) matches Some(r) ==> !r.ok && r.char_count
            == text_encoder::utf16_length(s) && r.byte_count == text::byte_length(s)
            && r.error is Some && (r.error->Some_0.code == if device::keyboard_subscribed(mask) {
            "unencodable_chars"@
        } else {
            "keyboard_report_not_ready"@
        }) && (r.unencodable_positions.len() > 0 <==> device::keyboard_subscribed(mask)),
{
    let bad = text_encoder::untyped_positions(s);
    if bad.len() > 0 {
        assert(bad.contains(bad[0]));
        text_encoder::reported_positions_are_those_of_untyped_characters(s, bad[0]);
    }
    if !(forall|k: int| 0 <= k < s.len() ==> hid_report::on_keyboard(#[trigger] s[k])) {
        let k = choose|k: int| 0 <= k < s.len() && !hid_report::on_keyboard(#[trigger] s[k]);
        let p: nat = (k + s.take(k).filter(|c: char| c as u32 >= 0x10000).len()) as nat;
        text_encoder::reported_positions_are_those_of_untyped_characters(s, p);
        assert(bad.contains(p));
    }
}

/// A text that is sent as a whole counts as sent exactly where nothing failed; a failure keeps
/// its code and what it says, and both report how long the text is.
pub proof fn whole_texts_are_sent_or_fail(
    count: nat,
    bytes: nat,
    failure: Option<AdapterError<Seq<char>>>,
    before: Seq<char>,
)
    ensures
        ({
            let r = sent_text(count, bytes, failure, before);
            &&& r.ok <==> failure is None
            &&& r.error is None <==> failure is None
            &&& r.truncated <==> failure is Some
            &&& r.char_count == count && r.byte_count == bytes
            &&& r.unencodable_positions.len() == 0
            &&& failure is Some ==> r.error->Some_0.code == failure->Some_0.code_text()
                && before.is_prefix_of(r.error->Some_0.message) && r.error->Some_0.message.skip(
                before.len() as int,
            ) == failure->Some_0.message_text()
        }),
{
    if let Some(e) = failure {
        let all = before + e.message_text();
        assert(all.skip(before.len() as int) =~= e.message_text());
        assert(all.subrange(0, before.len() as int) =~= before);
    }
}

/// What came of a paste is logged once, as information where it went through and as a warning
/// with its reason where it did not; nothing else of the session changes.
pub proof fn pastes_are_logged_once(m: SessionModel, r: PasteOutcome, at: Seq<char>)
    requires
        r.ok || r.error is Some,
    ensures
        ({
            let after = after_paste(m, r, at);
            &&& after.outbox.len() == m.outbox.len() + 1
            &&& after.outbox.drop_last() == m.outbox
            &&& after == (SessionModel { outbox: after.outbox, ..m })
            &&& after.outbox.last() matches manager::Notice::Log(e) && e.at == at && (r.ok
                ==> e.level == "info"@ && e.code == "paste_completed"@) && (!r.ok ==> e.level
                == "warn"@ && e.code == "paste_failed"@)
        }),
{
    reveal_strlit("info");
    reveal_strlit("warn");
    reveal_strlit("error");
    assert("info"@.len() != "error"@.len() && "warn"@.len() != "error"@.len());
    assert(after_paste(m, r, at).outbox.drop_last() =~= m.outbox);
}

/// A paste never logs the text: what is told about it depends only on whether it went through
/// and on the error.
pub proof fn pastes_are_logged_without_the_text(
    m: SessionModel,
    a: PasteOutcome,
    b: PasteOutcome,
    at: Seq<char>,
)
    requires
        a.ok == b.ok,
        a.error == b.error,
    ensures
        after_paste(m, a, at) == after_paste(m, b, at),
{
}

/// A paste is logged once it is finished, and not while it is still to be sent.
pub proof fn only_finished_pastes_are_logged(m: SessionModel, way: PasteWay, at: Seq<char>)
    ensures
        way is Finished ==> after_way(m, way, at) == after_paste(m, way->Finished_0, at),
        !(way is Finished) ==> after_way(m, way, at) == m,
{
}

} // verus!
