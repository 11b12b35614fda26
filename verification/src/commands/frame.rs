//! The frames of a session: where they go, the test picture, and what is known of them.
use vstd::prelude::*;

use crate::commands;
use crate::commands::{CmdResult, CommandErrorPayload};
use crate::session::device::SessionModel;
use crate::session::manager;
use crate::session::manager::{RegistryModel, SessionRegistry};

verus! {

/// What is known of the frames of a session.
#[derive(Debug, Clone, Copy, PartialEq, Eq, Structural)]
pub struct FrameStatus {
    pub has_sink: bool,
    pub test_mode: bool,
    pub width: u32,
    pub height: u32,
}

/// Notes that the frames of a session have somewhere to go.
pub fn attach_frame_channel(reg: &mut SessionRegistry, id: &str) -> (r: CmdResult<()>)
    requires
        old(reg)@.wf(),
    ensures
        final(reg)@.wf(),
        final(reg)@ == old(reg)@.with_session(
            id@,
            SessionModel { frame_sink: true, ..old(reg)@.session(id@) },
        ),
        commands::passes_on(
            r,
            if old(reg)@.has(id@) {
                None
            } else {
                Some(old(reg)@.unknown(id@))
            },
        ),
{
    match reg.attach_frame_sink(id) {
        Ok(()) => Ok(()),
        Err(e) => Err(CommandErrorPayload::from_adapter(&e)),
    }
}

/// Switches the test picture of a session; says whether it is to be started.
pub fn frame_test_mode(reg: &mut SessionRegistry, id: &str, enabled: bool) -> (r: CmdResult<bool>)
    requires
        old(reg)@.wf(),
    ensures
        final(reg)@.wf(),
        final(reg)@ == old(reg)@.with_session(
            id@,
            old(reg)@.session(id@).with_test_frames(enabled),
        ),
        r matches Ok(start) ==> start == enabled,
        commands::passes_on(
            r,
            if old(reg)@.has(id@) {
                old(reg)@.session(id@).test_frames_refusal(enabled)
            } else {
                Some(old(reg)@.unknown(id@))
            },
        ),
{
    match reg.frame_test_mode(id, enabled) {
        Ok(start) => Ok(start),
        Err(e) => Err(CommandErrorPayload::from_adapter(&e)),
    }
}

/// What is known of the frames of a session; nothing of one that is not there.
pub open spec fn status_of(m: RegistryModel, id: Seq<char>) -> FrameStatus {
    if m.has(id) {
        let s = m.session(id);
        FrameStatus {
            has_sink: s.frame_sink,
            test_mode: s.frame_test_mode,
            width: s.picture_size().0,
            height: s.picture_size().1,
        }
    } else {
        FrameStatus { has_sink: false, test_mode: false, width: 0, height: 0 }
    }
}

/// What is known of the frames of a session; nothing of one that is not there.
pub fn frame_status(reg: &SessionRegistry, id: &str) -> (r: FrameStatus)
    ensures
        r == status_of(reg@, id@),
{
    match reg.get(id) {
        Some(s) => {
            let (has_sink, test_mode, width, height) = s.frame_status();
            FrameStatus { has_sink, test_mode, width, height }
        },
        None => FrameStatus { has_sink: false, test_mode: false, width: 0, height: 0 },
    }
}

/// What is said of the frames of a session is what the session knows of them.
pub proof fn frames_are_reported_as_they_are(m: RegistryModel, i: int)
    requires
        m.wf(),
        0 <= i < m.sessions.len(),
    ensures
        ({
            let s = m.sessions[i];
            let r = status_of(m, s.id);
            &&& r.has_sink == s.frame_sink && r.test_mode == s.frame_test_mode
            &&& s.last_metadata matches Some((w, h)) ==> r.width == w && r.height == h
            &&& s.last_metadata is None ==> r.width > r.height > 0
        }),
{
    manager::names_lead_to_their_sessions(m, i, m.sessions[i]);
    assert(m.has(m.sessions[i].id));
}

} // verus!
