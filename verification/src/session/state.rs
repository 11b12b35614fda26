//! The state machine of a session.
use vstd::prelude::*;

use crate::text;

verus! {

/// The state of a session.
#[derive(Debug, Clone, Copy, PartialEq, Eq, Structural)]
pub enum SessionStateName {
    Idle,
    Checking,
    Ready,
    Mirroring,
    MirroringConnected,
    ControlPairing,
    ControlReady,
    Reconnecting,
    Stopping,
    Failed,
}

/// The state of the input side, derived from the state of the session.
#[derive(Debug, Clone, Copy, PartialEq, Eq, Structural)]
pub enum ControlState {
    Disabled,
    Broadcasting,
    WaitingPairing,
    Connected,
    InputPaused,
}

/// The state of the mirror side, derived from the state of the session.
#[derive(Debug, Clone, Copy, PartialEq, Eq, Structural)]
pub enum MirrorState {
    Idle,
    Starting,
    Connecting,
    Streaming,
    Reconnecting,
    Stopped,
    Failed,
}

impl Default for SessionStateName {
    fn default() -> (r: Self)
        ensures
            r == SessionStateName::Idle,
    {
        SessionStateName::Idle
    }
}

impl Default for ControlState {
    fn default() -> (r: Self)
        ensures
            r == ControlState::Disabled,
    {
        ControlState::Disabled
    }
}

impl Default for MirrorState {
    fn default() -> (r: Self)
        ensures
            r == MirrorState::Idle,
    {
        MirrorState::Idle
    }
}

/// What can happen to a session.
#[derive(Debug, Clone, Copy, PartialEq, Eq, Structural)]
pub enum SessionEvent {
    /// The user asks for a connection.
    UserConnect,
    /// The dependency checks passed.
    ChecksPassed,
    /// The dependency checks failed.
    ChecksFailed,
    /// The receiver of the mirror has started.
    MirrorStarted,
    /// The control connection of the mirror stands; the first frame may come later.
    MirrorConnected,
    /// The first frame has come.
    FirstFrame,
    /// The mirror engine crashed or timed out.
    MirrorFailed,
    /// The user enables control.
    UserEnableControl,
    /// The phone is paired and takes input.
    ControlPaired,
    /// The user gives up control.
    UserCancelControl,
    /// The input link is lost.
    BleDisconnected,
    /// The mirror link is lost.
    LinkLost,
    /// The mirror is back.
    ReconnectOk,
    /// The mirror did not come back in time.
    ReconnectTimeout,
    /// The user stops the session.
    UserStop,
    /// All resources are released.
    CleanupDone,
    /// The user dismisses the error.
    UserDismissError,
}

impl SessionStateName {
    /// The name of the variant.
    pub open spec fn name_text(self) -> Seq<char> {
        match self {
            SessionStateName::Idle => "Idle"@,
            SessionStateName::Checking => "Checking"@,
            SessionStateName::Ready => "Ready"@,
            SessionStateName::Mirroring => "Mirroring"@,
            SessionStateName::MirroringConnected => "MirroringConnected"@,
            SessionStateName::ControlPairing => "ControlPairing"@,
            SessionStateName::ControlReady => "ControlReady"@,
            SessionStateName::Reconnecting => "Reconnecting"@,
            SessionStateName::Stopping => "Stopping"@,
            SessionStateName::Failed => "Failed"@,
        }
    }

    /// The name of the variant.
    pub fn name(self) -> (r: &'static str)
        ensures
            r@ == self.name_text(),
    {
        match self {
            SessionStateName::Idle => "Idle",
            SessionStateName::Checking => "Checking",
            SessionStateName::Ready => "Ready",
            SessionStateName::Mirroring => "Mirroring",
            SessionStateName::MirroringConnected => "MirroringConnected",
            SessionStateName::ControlPairing => "ControlPairing",
            SessionStateName::ControlReady => "ControlReady",
            SessionStateName::Reconnecting => "Reconnecting",
            SessionStateName::Stopping => "Stopping",
            SessionStateName::Failed => "Failed",
        }
    }
}

impl SessionEvent {
    /// The name of the variant.
    pub open spec fn name_text(self) -> Seq<char> {
        match self {
            SessionEvent::UserConnect => "UserConnect"@,
            SessionEvent::ChecksPassed => "ChecksPassed"@,
            SessionEvent::ChecksFailed => "ChecksFailed"@,
            SessionEvent::MirrorStarted => "MirrorStarted"@,
            SessionEvent::MirrorConnected => "MirrorConnected"@,
            SessionEvent::FirstFrame => "FirstFrame"@,
            SessionEvent::MirrorFailed => "MirrorFailed"@,
            SessionEvent::UserEnableControl => "UserEnableControl"@,
            SessionEvent::ControlPaired => "ControlPaired"@,
            SessionEvent::UserCancelControl => "UserCancelControl"@,
            SessionEvent::BleDisconnected => "BleDisconnected"@,
            SessionEvent::LinkLost => "LinkLost"@,
            SessionEvent::ReconnectOk => "ReconnectOk"@,
            SessionEvent::ReconnectTimeout => "ReconnectTimeout"@,
            SessionEvent::UserStop => "UserStop"@,
            SessionEvent::CleanupDone => "CleanupDone"@,
            SessionEvent::UserDismissError => "UserDismissError"@,
        }
    }

    /// The name of the variant.
    pub fn name(self) -> (r: &'static str)
        ensures
            r@ == self.name_text(),
    {
        match self {
            SessionEvent::UserConnect => "UserConnect",
            SessionEvent::ChecksPassed => "ChecksPassed",
            SessionEvent::ChecksFailed => "ChecksFailed",
            SessionEvent::MirrorStarted => "MirrorStarted",
            SessionEvent::MirrorConnected => "MirrorConnected",
            SessionEvent::FirstFrame => "FirstFrame",
            SessionEvent::MirrorFailed => "MirrorFailed",
            SessionEvent::UserEnableControl => "UserEnableControl",
            SessionEvent::ControlPaired => "ControlPaired",
            SessionEvent::UserCancelControl => "UserCancelControl",
            SessionEvent::BleDisconnected => "BleDisconnected",
            SessionEvent::LinkLost => "LinkLost",
            SessionEvent::ReconnectOk => "ReconnectOk",
            SessionEvent::ReconnectTimeout => "ReconnectTimeout",
            SessionEvent::UserStop => "UserStop",
            SessionEvent::CleanupDone => "CleanupDone",
            SessionEvent::UserDismissError => "UserDismissError",
        }
    }
}

/// An event that the state does not take.
#[derive(Debug, Clone, Copy, PartialEq, Eq, Structural)]
pub struct InvalidTransition {
    pub from: SessionStateName,
    pub event: SessionEvent,
}

impl InvalidTransition {
    /// The refusal in words, for diagnostics.
    pub open spec fn words(self) -> Seq<char> {
        "InvalidTransition { from: "@ + self.from.name_text() + ", event: "@
            + self.event.name_text() + " }"@
    }

    /// The refusal in words, for diagnostics.
    pub fn describe(&self) -> (r: String)
        ensures
            r@ == self.words(),
    {
        text::cat5(
            "InvalidTransition { from: ",
            self.from.name(),
            ", event: ",
            self.event.name(),
            " }",
        )
    }
}

/// The state that an event leads to; `None` where the state does not take the event.
pub open spec fn next_state(from: SessionStateName, event: SessionEvent) -> Option<
    SessionStateName,
> {
    match event {
        SessionEvent::UserConnect => if from is Idle {
            Some(SessionStateName::Checking)
        } else {
            None
        },
        SessionEvent::ChecksPassed => if from is Checking {
            Some(SessionStateName::Ready)
        } else {
            None
        },
        SessionEvent::ChecksFailed => if from is Checking {
            Some(SessionStateName::Failed)
        } else {
            None
        },
        SessionEvent::MirrorStarted => if from is Ready {
            Some(SessionStateName::Mirroring)
        } else {
            None
        },
        SessionEvent::MirrorConnected => if from is Mirroring {
            Some(SessionStateName::MirroringConnected)
        } else {
            None
        },
        SessionEvent::FirstFrame => if from is Mirroring || from is MirroringConnected {
            Some(SessionStateName::MirroringConnected)
        } else {
            None
        },
        SessionEvent::MirrorFailed => if from is Mirroring {
            Some(SessionStateName::Failed)
        } else {
            None
        },
        SessionEvent::UserEnableControl => if from is MirroringConnected {
            Some(SessionStateName::ControlPairing)
        } else {
            None
        },
        SessionEvent::ControlPaired => if from is ControlPairing {
            Some(SessionStateName::ControlReady)
        } else {
            None
        },
        SessionEvent::UserCancelControl => if from is ControlPairing {
            Some(SessionStateName::MirroringConnected)
        } else {
            None
        },
        SessionEvent::BleDisconnected => if from is ControlReady {
            Some(SessionStateName::MirroringConnected)
        } else {
            None
        },
        SessionEvent::LinkLost => if from is MirroringConnected {
            Some(SessionStateName::Reconnecting)
        } else {
            None
        },
        SessionEvent::ReconnectOk => if from is Reconnecting {
            Some(SessionStateName::MirroringConnected)
        } else {
            None
        },
        SessionEvent::ReconnectTimeout => if from is Reconnecting {
            Some(SessionStateName::Failed)
        } else {
            None
        },
        SessionEvent::UserStop => if from is Idle || from is Stopping || from is Failed {
            None
        } else {
            Some(SessionStateName::Stopping)
        },
        SessionEvent::CleanupDone => if from is Stopping {
            Some(SessionStateName::Idle)
        } else {
            None
        },
        SessionEvent::UserDismissError => if from is Failed {
            Some(SessionStateName::Idle)
        } else {
            None
        },
    }
}

/// The state after an event: the one it leads to, or the same one where it is not taken.
pub open spec fn after(from: SessionStateName, event: SessionEvent) -> SessionStateName {
    match next_state(from, event) {
        Some(s) => s,
        None => from,
    }
}

/// The state after a sequence of events.
pub open spec fn after_all(from: SessionStateName, events: Seq<SessionEvent>) -> SessionStateName
    decreases events.len(),
{
    if events.len() == 0 {
        from
    } else {
        after(after_all(from, events.drop_last()), events.last())
    }
}

/// The state machine of a session.
#[derive(Debug)]
pub struct SessionStateMachine {
    pub state: SessionStateName,
}

impl SessionStateMachine {
    /// A machine in the state `Idle`.
    pub fn new() -> (r: Self)
        ensures
            r.state == SessionStateName::Idle,
    {
        SessionStateMachine { state: SessionStateName::Idle }
    }

    pub fn state(&self) -> (r: SessionStateName)
        ensures
            r == self.state,
    {
        self.state
    }

    /// Takes an event. One that the state does not take is refused and changes nothing.
    pub fn transition(&mut self, event: SessionEvent) -> (r: Result<
        SessionStateName,
        InvalidTransition,
    >)
        ensures
            match next_state(old(self).state, event) {
                Some(next) => r == Ok::<SessionStateName, InvalidTransition>(next)
                    && final(self).state == next,
                None => r == Err::<SessionStateName, InvalidTransition>(
                    (InvalidTransition { from: old(self).state, event }),
                ) && final(self).state == old(self).state,
            },
            final(self).state == after(old(self).state, event),
    {
        let from = self.state;
        let next = match (from, event) {
            (SessionStateName::Idle, SessionEvent::UserConnect) => SessionStateName::Checking,
            (SessionStateName::Checking, SessionEvent::ChecksPassed) => SessionStateName::Ready,
            (SessionStateName::Checking, SessionEvent::ChecksFailed) => SessionStateName::Failed,
            (SessionStateName::Ready, SessionEvent::MirrorStarted) => SessionStateName::Mirroring,
            (SessionStateName::Checking, SessionEvent::UserStop)
            | (SessionStateName::Ready, SessionEvent::UserStop)
            | (SessionStateName::Mirroring, SessionEvent::UserStop)
            | (SessionStateName::MirroringConnected, SessionEvent::UserStop)
            | (SessionStateName::ControlPairing, SessionEvent::UserStop)
            | (SessionStateName::ControlReady, SessionEvent::UserStop)
            | (SessionStateName::Reconnecting, SessionEvent::UserStop) => {
                SessionStateName::Stopping
            },
            (SessionStateName::Mirroring, SessionEvent::MirrorConnected)
            | (SessionStateName::Mirroring, SessionEvent::FirstFrame)
            | (SessionStateName::MirroringConnected, SessionEvent::FirstFrame) => {
                SessionStateName::MirroringConnected
            },
            (SessionStateName::Mirroring, SessionEvent::MirrorFailed) => SessionStateName::Failed,
            (SessionStateName::MirroringConnected, SessionEvent::UserEnableControl) => {
                SessionStateName::ControlPairing
            },
            (SessionStateName::MirroringConnected, SessionEvent::LinkLost) => {
                SessionStateName::Reconnecting
            },
            (SessionStateName::ControlPairing, SessionEvent::ControlPaired) => {
                SessionStateName::ControlReady
            },
            (SessionStateName::ControlPairing, SessionEvent::UserCancelControl) => {
                SessionStateName::MirroringConnected
            },
            (SessionStateName::ControlReady, SessionEvent::BleDisconnected) => {
                SessionStateName::MirroringConnected
            },
            (SessionStateName::Reconnecting, SessionEvent::ReconnectOk) => {
                SessionStateName::MirroringConnected
            },
            (SessionStateName::Reconnecting, SessionEvent::ReconnectTimeout) => {
                SessionStateName::Failed
            },
            (SessionStateName::Stopping, SessionEvent::CleanupDone) => SessionStateName::Idle,
            (SessionStateName::Failed, SessionEvent::UserDismissError) => SessionStateName::Idle,
            _ => {
                return Err(InvalidTransition { from, event });
            },
        };
        self.state = next;
        Ok(next)
    }
}

impl Default for SessionStateMachine {
    fn default() -> (r: Self)
        ensures
            r.state == SessionStateName::Idle,
    {
        SessionStateMachine::new()
    }
}

/// The state of the input side in a state of the session.
pub open spec fn control_of(state: SessionStateName) -> ControlState {
    match state {
        SessionStateName::ControlPairing => ControlState::WaitingPairing,
        SessionStateName::ControlReady => ControlState::Connected,
        _ => ControlState::Disabled,
    }
}

/// The state of the input side in a state of the session.
pub fn derive_control_state(state: SessionStateName) -> (r: ControlState)
    ensures
        r == control_of(state),
{
    match state {
        SessionStateName::ControlPairing => ControlState::WaitingPairing,
        SessionStateName::ControlReady => ControlState::Connected,
        _ => ControlState::Disabled,
    }
}

/// The state of the mirror side in a state of the session.
pub open spec fn mirror_of(state: SessionStateName) -> MirrorState {
    match state {
        SessionStateName::Idle => MirrorState::Idle,
        SessionStateName::Checking | SessionStateName::Ready => MirrorState::Starting,
        SessionStateName::Mirroring => MirrorState::Connecting,
        SessionStateName::MirroringConnected
        | SessionStateName::ControlPairing
        | SessionStateName::ControlReady => MirrorState::Streaming,
        SessionStateName::Reconnecting => MirrorState::Reconnecting,
        SessionStateName::Stopping => MirrorState::Stopped,
        SessionStateName::Failed => MirrorState::Failed,
    }
}

/// The state of the mirror side in a state of the session.
pub fn derive_mirror_state(state: SessionStateName) -> (r: MirrorState)
    ensures
        r == mirror_of(state),
{
    match state {
        SessionStateName::Idle => MirrorState::Idle,
        SessionStateName::Checking | SessionStateName::Ready => MirrorState::Starting,
        SessionStateName::Mirroring => MirrorState::Connecting,
        SessionStateName::MirroringConnected
        | SessionStateName::ControlPairing
        | SessionStateName::ControlReady => MirrorState::Streaming,
        SessionStateName::Reconnecting => MirrorState::Reconnecting,
        SessionStateName::Stopping => MirrorState::Stopped,
        SessionStateName::Failed => MirrorState::Failed,
    }
}

/// Each state is entered in its own ways and in no others: a connection is checked, made ready,
/// started and mirrored in this order; control is built on a picture and falls back to it; a
/// lost picture is sought again and comes back as one; stopping ends in `Idle`, and so does a
/// failure that is dismissed. In every other case the event is refused.
pub proof fn states_are_entered_in_their_ways(from: SessionStateName, event: SessionEvent)
    ensures
        ({
            let to = next_state(from, event);
            &&& to == Some(SessionStateName::Checking) <==> from is Idle && event is UserConnect
            &&& to == Some(SessionStateName::Ready) <==> from is Checking && event is ChecksPassed
            &&& to == Some(SessionStateName::Mirroring) <==> from is Ready && event is MirrorStarted
            &&& to == Some(SessionStateName::MirroringConnected) <==> (from is Mirroring && (
            event is MirrorConnected || event is FirstFrame)) || (from is MirroringConnected
                && event is FirstFrame) || (from is ControlPairing && event is UserCancelControl)
                || (from is ControlReady && event is BleDisconnected) || (from is Reconnecting
                && event is ReconnectOk)
            &&& to == Some(SessionStateName::ControlPairing) <==> from is MirroringConnected
                && event is UserEnableControl
            &&& to == Some(SessionStateName::ControlReady) <==> from is ControlPairing
                && event is ControlPaired
            &&& to == Some(SessionStateName::Reconnecting) <==> from is MirroringConnected
                && event is LinkLost
            &&& to == Some(SessionStateName::Failed) <==> (from is Checking
                && event is ChecksFailed) || (from is Mirroring && event is MirrorFailed) || (
            from is Reconnecting && event is ReconnectTimeout)
            &&& to == Some(SessionStateName::Stopping) <==> event is UserStop && !(from is Idle)
                && !(from is Stopping) && !(from is Failed)
            &&& to == Some(SessionStateName::Idle) <==> (from is Stopping && event is CleanupDone)
                || (from is Failed && event is UserDismissError)
        }),
{
}

/// A refused event changes nothing, and one that is taken leads where it is said to.
pub proof fn refused_events_change_nothing(from: SessionStateName, event: SessionEvent)
    ensures
        next_state(from, event) is None ==> after(from, event) == from,
        next_state(from, event) is Some ==> Some(after(from, event)) == next_state(from, event),
{
}

/// The sides of a session follow its state: the picture streams exactly while it is shown or
/// control is built on it, the input side is connected exactly while control is ready and waits
/// exactly while it pairs, and each of the other states of the picture has its own.
pub proof fn sides_follow_the_state(state: SessionStateName)
    ensures
        control_of(state) is Connected <==> state is ControlReady,
        control_of(state) is WaitingPairing <==> state is ControlPairing,
        control_of(state) is Disabled <==> !(state is ControlReady) && !(state is ControlPairing),
        mirror_of(state) is Streaming <==> state is MirroringConnected || control_of(state)
            is Connected || control_of(state) is WaitingPairing,
        mirror_of(state) is Idle <==> state is Idle,
        mirror_of(state) is Starting <==> next_state(state, SessionEvent::ChecksPassed) is Some
            || next_state(state, SessionEvent::MirrorStarted) is Some,
        mirror_of(state) is Connecting <==> state is Mirroring,
        mirror_of(state) is Reconnecting <==> state is Reconnecting,
        mirror_of(state) is Stopped <==> state is Stopping,
        mirror_of(state) is Failed <==> state is Failed,
{
}

/// No two states and no two events share a name.
pub proof fn names_tell_states_and_events_apart(
    a: SessionStateName,
    b: SessionStateName,
    e: SessionEvent,
    f: SessionEvent,
)
    ensures
        a.name_text() == b.name_text() ==> a == b,
        e.name_text() == f.name_text() ==> e == f,
{
    reveal_strlit("Idle");
    reveal_strlit("Checking");
    reveal_strlit("Ready");
    reveal_strlit("Mirroring");
    reveal_strlit("MirroringConnected");
    reveal_strlit("ControlPairing");
    reveal_strlit("ControlReady");
    reveal_strlit("Reconnecting");
    reveal_strlit("Stopping");
    reveal_strlit("Failed");
    assert("Idle"@.len() == 4 && "Ready"@.len() == 5 && "Failed"@.len() == 6);
    assert("Checking"@.len() == 8 && "Checking"@[0] == 'C' && "Stopping"@.len() == 8
        && "Stopping"@[0] == 'S');
    assert("Mirroring"@.len() == 9 && "MirroringConnected"@.len() == 18);
    assert("ControlPairing"@.len() == 14 && "ControlReady"@.len() == 12 && "ControlReady"@[0]
        == 'C' && "Reconnecting"@.len() == 12 && "Reconnecting"@[0] == 'R');
    reveal_strlit("UserConnect");
    reveal_strlit("ChecksPassed");
    reveal_strlit("ChecksFailed");
    reveal_strlit("MirrorStarted");
    reveal_strlit("MirrorConnected");
    reveal_strlit("FirstFrame");
    reveal_strlit("MirrorFailed");
    reveal_strlit("UserEnableControl");
    reveal_strlit("ControlPaired");
    reveal_strlit("UserCancelControl");
    reveal_strlit("BleDisconnected");
    reveal_strlit("LinkLost");
    reveal_strlit("ReconnectOk");
    reveal_strlit("ReconnectTimeout");
    reveal_strlit("UserStop");
    reveal_strlit("CleanupDone");
    reveal_strlit("UserDismissError");
    assert("UserStop"@.len() == 8 && "UserStop"@[0] == 'U' && "LinkLost"@.len() == 8
        && "LinkLost"@[0] == 'L');
    assert("FirstFrame"@.len() == 10);
    assert("UserConnect"@.len() == 11 && "UserConnect"@[0] == 'U' && "ReconnectOk"@.len() == 11
        && "ReconnectOk"@[0] == 'R' && "CleanupDone"@.len() == 11 && "CleanupDone"@[0] == 'C');
    assert("ChecksPassed"@.len() == 12 && "ChecksPassed"@[6] == 'P' && "ChecksFailed"@.len() == 12
        && "ChecksFailed"@[6] == 'F' && "MirrorFailed"@.len() == 12 && "MirrorFailed"@[6] == 'F'
        && "MirrorFailed"@[0] == 'M' && "ChecksFailed"@[0] == 'C');
    assert("MirrorStarted"@.len() == 13 && "MirrorStarted"@[0] == 'M' && "ControlPaired"@.len()
        == 13 && "ControlPaired"@[0] == 'C');
    assert("MirrorConnected"@.len() == 15 && "MirrorConnected"@[0] == 'M'
        && "BleDisconnected"@.len() == 15 && "BleDisconnected"@[0] == 'B');
    assert("ReconnectTimeout"@.len() == 16 && "ReconnectTimeout"@[0] == 'R'
        && "UserDismissError"@.len() == 16 && "UserDismissError"@[0] == 'U');
    assert("UserEnableControl"@.len() == 17 && "UserEnableControl"@[4] == 'E'
        && "UserCancelControl"@.len() == 17 && "UserCancelControl"@[4] == 'C');
}

/// A session can be stopped in every state in which something runs; stopping and the end of
/// the cleanup lead back to `Idle`.
pub proof fn a_running_session_can_be_stopped(state: SessionStateName)
    ensures
        next_state(state, SessionEvent::UserStop) == Some(SessionStateName::Stopping) <==> !(
        state is Idle || state is Stopping || state is Failed),
        next_state(SessionStateName::Stopping, SessionEvent::CleanupDone) == Some(
            SessionStateName::Idle,
        ),
{
}

/// From every state some events lead back to `Idle`.
pub proof fn idle_is_always_reachable(state: SessionStateName)
    ensures
        exists|events: Seq<SessionEvent>|
            #[trigger] after_all(state, events) == SessionStateName::Idle,
{
    reveal_with_fuel(after_all, 3);
    let none = Seq::<SessionEvent>::empty();
    let stop = seq![SessionEvent::UserStop, SessionEvent::CleanupDone];
    let clean = seq![SessionEvent::CleanupDone];
    let dismiss = seq![SessionEvent::UserDismissError];
    match state {
        SessionStateName::Idle => {
            assert(after_all(state, none) == SessionStateName::Idle);
        },
        SessionStateName::Stopping => {
            assert(clean.drop_last() =~= none);
            assert(after_all(state, clean) == SessionStateName::Idle);
        },
        SessionStateName::Failed => {
            assert(dismiss.drop_last() =~= none);
            assert(after_all(state, dismiss) == SessionStateName::Idle);
        },
        _ => {
            let first = seq![SessionEvent::UserStop];
            assert(first.drop_last() =~= none);
            assert(stop.drop_last() =~= first);
            assert(after_all(state, first) == SessionStateName::Stopping);
            assert(after_all(state, stop) == SessionStateName::Idle);
        },
    }
}

/// Losing the input link, giving up control or taking a frame leaves a running mirror running.
pub proof fn input_events_keep_the_mirror(state: SessionStateName, event: SessionEvent)
    requires
        mirror_of(state) == MirrorState::Streaming,
        event is BleDisconnected || event is UserCancelControl || event is UserEnableControl
            || event is ControlPaired || event is FirstFrame,
    ensures
        mirror_of(after(state, event)) == MirrorState::Streaming,
{
}

/// Input is taken only while the mirror runs.
pub proof fn control_needs_the_mirror(state: SessionStateName)
    ensures
        control_of(state) == ControlState::Connected ==> mirror_of(state)
            == MirrorState::Streaming,
{
}

/// `ControlReady` is entered only from `ControlPairing`, when the phone is paired.
pub proof fn control_needs_pairing(state: SessionStateName, event: SessionEvent)
    ensures
        next_state(state, event) == Some(SessionStateName::ControlReady) ==> state
            is ControlPairing && event is ControlPaired,
{
}

} // verus!
