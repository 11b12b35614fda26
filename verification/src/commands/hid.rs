//! Input from the window: pointer, wheel and keys. It is passed on only while control is on.
use vstd::prelude::*;

use crate::commands;
use crate::commands::{no_session, CmdResult, CommandErrorPayload};
use crate::integrations::hid_report::{BTN_LEFT, BTN_MIDDLE, BTN_RIGHT};
use crate::integrations::AdapterError;
use crate::session::device::SessionModel;
use crate::session::device_input;
use crate::session::device_input::{InputAction, InputEffect};
use crate::session::manager;
use crate::session::manager::{RegistryModel, SessionRegistry};
use crate::text;

verus! {

/// A movement of the pointer.
#[derive(Debug)]
pub struct PointerMoveEvent {
    pub dx: i32,
    pub dy: i32,
    /// Where the pointer is in the picture.
    pub abs_x: Option<u32>,
    pub abs_y: Option<u32>,
    /// The size of that picture.
    pub source_width: Option<u32>,
    pub source_height: Option<u32>,
}

/// A button that goes down or up.
#[derive(Debug)]
pub struct PointerButtonEvent {
    /// `left`, `middle` or `right`.
    pub button: String,
    pub pressed: bool,
    /// Where the pointer is in the picture.
    pub x: Option<u32>,
    pub y: Option<u32>,
    /// The size of that picture.
    pub source_width: Option<u32>,
    pub source_height: Option<u32>,
}

/// A turn of the wheel.
#[derive(Debug)]
pub struct WheelPayload {
    pub delta_y: i32,
}

/// The keys that are held while another is stroked.
#[derive(Debug)]
pub struct HidModifiers {
    pub ctrl: bool,
    pub shift: bool,
    pub alt: bool,
    pub meta: bool,
}

/// A key that is stroked. A key that repeats is stroked again.
#[derive(Debug)]
pub struct HidKeyStroke {
    pub code: String,
    pub key: String,
    pub modifiers: HidModifiers,
    pub repeat: bool,
}

/// Two numbers, where both are there.
pub open spec fn both(a: Option<u32>, b: Option<u32>) -> Option<(u32, u32)> {
    match (a, b) {
        (Some(x), Some(y)) => Some((x, y)),
        _ => None,
    }
}

fn pair(a: Option<u32>, b: Option<u32>) -> (r: Option<(u32, u32)>)
    ensures
        r == both(a, b),
{
    match (a, b) {
        (Some(x), Some(y)) => Some((x, y)),
        _ => None,
    }
}

/// The button with a name.
pub open spec fn button_of(name: Seq<char>) -> Option<u8> {
    if name == "left"@ {
        Some(BTN_LEFT)
    } else if name == "middle"@ {
        Some(BTN_MIDDLE)
    } else if name == "right"@ {
        Some(BTN_RIGHT)
    } else {
        None
    }
}

/// The button with a name.
pub fn button_bit(button: &str) -> (r: Option<u8>)
    ensures
        r == button_of(button@),
{
    if text::same(button, "left") {
        Some(BTN_LEFT)
    } else if text::same(button, "middle") {
        Some(BTN_MIDDLE)
    } else if text::same(button, "right") {
        Some(BTN_RIGHT)
    } else {
        None
    }
}

/// What a movement leads to in a session.
pub open spec fn moved(s: SessionModel, event: PointerMoveEvent) -> InputEffect {
    device_input::move_effect(
        s,
        event.dx,
        event.dy,
        both(event.abs_x, event.abs_y),
        both(event.source_width, event.source_height),
    )
}

/// What a button leads to in a session.
pub open spec fn pressed(s: SessionModel, bit: u8, event: PointerButtonEvent) -> InputEffect {
    device_input::button_effect(
        s,
        bit,
        event.pressed,
        both(event.x, event.y),
        both(event.source_width, event.source_height),
    )
}

/// What a key leads to in a session.
pub open spec fn stroked(s: SessionModel, stroke: HidKeyStroke) -> InputEffect {
    device_input::key_effect(
        s,
        stroke.code@,
        stroke.key@,
        stroke.modifiers.ctrl,
        stroke.modifiers.shift,
        stroke.modifiers.alt,
        stroke.modifiers.meta,
    )
}

/// Whether input was handed to the session with a name: only that session changes, and what
/// comes back is what the input leads to there.
pub open spec fn handed_on(
    before: RegistryModel,
    after: RegistryModel,
    id: Seq<char>,
    effect: InputEffect,
    r: CmdResult<InputAction>,
) -> bool {
    &&& after == before.with_session(id, effect.after)
    &&& match r {
        Ok(a) => before.has(id) && effect.error is None && a@ == effect.action,
        Err(e) => e@ == (if before.has(id) {
            commands::answer_to(effect.error->0)
        } else {
            commands::session_missing()
        }) && (before.has(id) ==> effect.error is Some),
    }
}

fn answer(r: Result<InputAction, AdapterError>) -> (c: CmdResult<InputAction>)
    ensures
        match (r, c) {
            (Ok(a), Ok(b)) => a == b,
            (Err(e), Err(p)) => p@ == commands::answer_to(e@),
            _ => false,
        },
{
    match r {
        Ok(a) => Ok(a),
        Err(e) => Err(CommandErrorPayload::from_adapter(&e)),
    }
}

/// Moves the pointer of a session; says what is to be sent.
pub fn hid_pointer_move(reg: &mut SessionRegistry, id: &str, event: PointerMoveEvent) -> (r:
    CmdResult<InputAction>)
    requires
        old(reg)@.wf(),
    ensures
        final(reg)@.wf(),
        handed_on(
            old(reg)@,
            final(reg)@,
            id@,
            moved(old(reg)@.session(id@), event),
            r,
        ),
{
    let abs = pair(event.abs_x, event.abs_y);
    let source_size = pair(event.source_width, event.source_height);
    match reg.index_of(id) {
        None => Err(no_session()),
        Some(i) => {
            let ghost before = reg@;
            let r = reg.sessions[i].send_pointer_move(event.dx, event.dy, abs, source_size);
            proof {
                manager::lemma_one_changed(before, id@, reg.sessions@);
            }
            answer(r)
        },
    }
}

/// Presses or lifts a button of a session; says what is to be sent. A button with another name
/// is refused.
pub fn hid_pointer_button(reg: &mut SessionRegistry, id: &str, event: PointerButtonEvent) -> (r:
    CmdResult<InputAction>)
    requires
        old(reg)@.wf(),
    ensures
        final(reg)@.wf(),
        match button_of(event.button@) {
            Some(bit) => handed_on(
                old(reg)@,
                final(reg)@,
                id@,
                pressed(old(reg)@.session(id@), bit, event),
                r,
            ),
            None => final(reg)@ == old(reg)@ && match r {
                Ok(_) => false,
                Err(e) => e@ == (CommandErrorPayload {
                    code: "invalid_button"@,
                    message: "未知鼠标按键"@,
                }),
            },
        },
{
    let bit = match button_bit(event.button.as_str()) {
        Some(b) => b,
        None => {
            return Err(CommandErrorPayload::new("invalid_button", "未知鼠标按键"));
        },
    };
    let abs = pair(event.x, event.y);
    let source_size = pair(event.source_width, event.source_height);
    match reg.index_of(id) {
        None => Err(no_session()),
        Some(i) => {
            let ghost before = reg@;
            let r = reg.sessions[i].send_pointer_button(bit, event.pressed, abs, source_size);
            proof {
                manager::lemma_one_changed(before, id@, reg.sessions@);
            }
            answer(r)
        },
    }
}

/// Scrolls in a session; says what is to be sent.
pub fn hid_wheel(reg: &mut SessionRegistry, id: &str, event: WheelPayload) -> (r: CmdResult<
    InputAction,
>)
    requires
        old(reg)@.wf(),
    ensures
        final(reg)@.wf(),
        final(reg)@ == old(reg)@,
        handed_on(
            old(reg)@,
            final(reg)@,
            id@,
            device_input::wheel_effect(old(reg)@.session(id@), event.delta_y),
            r,
        ),
{
    match reg.index_of(id) {
        None => Err(no_session()),
        Some(i) => {
            let ghost before = reg@;
            let r = reg.sessions[i].send_wheel(event.delta_y);
            proof {
                assert(manager::session_models(reg.sessions@) =~= before.sessions);
                assert(before.sessions.update(i as int, before.sessions[i as int])
                    =~= before.sessions);
            }
            answer(r)
        },
    }
}

/// Strokes a key in a session; says what is to be sent.
pub fn hid_key_stroke(reg: &mut SessionRegistry, id: &str, stroke: &HidKeyStroke) -> (r: CmdResult<
    InputAction,
>)
    requires
        old(reg)@.wf(),
    ensures
        final(reg)@.wf(),
        final(reg)@ == old(reg)@,
        handed_on(
            old(reg)@,
            final(reg)@,
            id@,
            stroked(old(reg)@.session(id@), *stroke),
            r,
        ),
{
    match reg.index_of(id) {
        None => Err(no_session()),
        Some(i) => {
            let ghost before = reg@;
            let r = reg.sessions[i].send_key_stroke(
                stroke.code.as_str(),
                stroke.key.as_str(),
                stroke.modifiers.ctrl,
                stroke.modifiers.shift,
                stroke.modifiers.alt,
                stroke.modifiers.meta,
            );
            proof {
                assert(manager::session_models(reg.sessions@) =~= before.sessions);
                assert(before.sessions.update(i as int, before.sessions[i as int])
                    =~= before.sessions);
            }
            answer(r)
        },
    }
}

/// A button has one name and one bit of the boot protocol: the left one the lowest, then the
/// right one, then the middle one. Nothing else is a button.
pub proof fn buttons_are_those_of_the_boot_protocol(name: Seq<char>)
    ensures
        button_of(name) == Some(1u8) <==> name == "left"@,
        button_of(name) == Some(2u8) <==> name == "right"@,
        button_of(name) == Some(4u8) <==> name == "middle"@,
        button_of(name) is Some ==> name == "left"@ || name == "right"@ || name == "middle"@,
{
    reveal_strlit("left");
    reveal_strlit("right");
    reveal_strlit("middle");
    assert("left"@.len() == 4 && "right"@.len() == 5 && "middle"@.len() == 6);
}

/// A place is known where both of its numbers are, and they stay in their order; so is a size.
pub proof fn movements_reach_the_session_as_they_are(
    s: SessionModel,
    e: PointerMoveEvent,
    x: u32,
    y: u32,
    w: u32,
    h: u32,
)
    ensures
        e.abs_x == Some(x) && e.abs_y == Some(y) && e.source_width == Some(w) && e.source_height
            == Some(h) ==> moved(s, e) == device_input::move_effect(
            s,
            e.dx,
            e.dy,
            Some((x, y)),
            Some((w, h)),
        ),
        (e.abs_x is None || e.abs_y is None) && (e.source_width is None || e.source_height is None)
            ==> moved(s, e) == device_input::move_effect(s, e.dx, e.dy, None, None),
{
}

/// A button reaches the session with where the pointer is, in the picture of its size.
pub proof fn buttons_reach_the_session_as_they_are(
    s: SessionModel,
    bit: u8,
    e: PointerButtonEvent,
    x: u32,
    y: u32,
    w: u32,
    h: u32,
)
    ensures
        e.x == Some(x) && e.y == Some(y) && e.source_width == Some(w) && e.source_height == Some(h)
            ==> pressed(s, bit, e) == device_input::button_effect(
            s,
            bit,
            e.pressed,
            Some((x, y)),
            Some((w, h)),
        ),
        (e.x is None || e.y is None) && (e.source_width is None || e.source_height is None)
            ==> pressed(s, bit, e) == device_input::button_effect(s, bit, e.pressed, None, None),
{
}

/// Input reaches the session that it is for and no other; where there is none, nothing changes
/// and the sender is told so.
pub proof fn input_reaches_its_session_alone(
    before: RegistryModel,
    after: RegistryModel,
    id: Seq<char>,
    other: Seq<char>,
    effect: InputEffect,
    r: CmdResult<InputAction>,
)
    requires
        before.wf(),
        other != id,
        effect.after.id == id,
        handed_on(before, after, id, effect, r),
    ensures
        before.has(id) ==> after.session(id) == effect.after,
        before.has(other) ==> after.has(other) && after.session(other) == before.session(other),
        after.active == before.active,
        !before.has(id) ==> after == before && r is Err,
        before.has(id) && effect.error is None ==> r is Ok,
{
    manager::one_session_at_a_time(before, id, effect.after);
    if before.has(id) {
        let i = choose|i: int|
            0 <= i < before.sessions.len() && (#[trigger] before.sessions[i]).id == id;
        manager::names_lead_to_their_sessions(before, i, effect.after);
        assert(after.sessions[i].id == id);
        manager::names_lead_to_their_sessions(after, i, effect.after);
        if before.has(other) {
            let j = choose|j: int|
                0 <= j < before.sessions.len() && (#[trigger] before.sessions[j]).id == other;
            manager::names_lead_to_their_sessions(before, j, effect.after);
            assert(after.sessions[j].id == other);
            manager::names_lead_to_their_sessions(after, j, effect.after);
        }
    }
}

} // verus!
