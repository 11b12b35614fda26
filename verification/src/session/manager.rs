//! The sessions of all devices: which there are, which one is active, and what is told to the
//! outside about them.
use vstd::prelude::*;

use crate::integrations::diagnostics;
use crate::integrations::hid_adapter::HidStatus;
use crate::integrations::AdapterError;
use crate::json;
use crate::seqs;
use crate::session::device;
use crate::session::device::{DeviceKind, DeviceSession, ReleaseWork, SessionModel, StopWork};
use crate::session::state::{ControlState, MirrorState, SessionStateName};
use crate::text;

verus! {

/// An entry of a log.
pub type LogEntry = diagnostics::LogEntry;

/// What a user has chosen for a session.
#[derive(Debug, Clone, Copy, PartialEq, Eq, Structural)]
pub struct SessionPreferences {
    /// Whether control starts by itself once the picture is there.
    pub auto_control: bool,
    pub paste_shortcut_enabled: bool,
    pub scroll_step: i32,
    pub max_paste_bytes: usize,
    /// Whether an iPhone is controlled over USB; where that is not possible, control does not
    /// start at all.
    pub ios_usb_control_enabled: bool,
}

/// What is chosen where nothing else is.
pub open spec fn default_preferences() -> SessionPreferences {
    SessionPreferences {
        auto_control: true,
        paste_shortcut_enabled: true,
        scroll_step: 80,
        max_paste_bytes: 32768,
        ios_usb_control_enabled: false,
    }
}

impl Default for SessionPreferences {
    fn default() -> (r: Self)
        ensures
            r == default_preferences(),
    {
        SessionPreferences {
            auto_control: true,
            paste_shortcut_enabled: true,
            scroll_step: 80,
            max_paste_bytes: 32768,
            ios_usb_control_enabled: false,
        }
    }
}

/// A failure of a session, as it is shown.
#[derive(Debug)]
pub struct SessionError<T = String> {
    pub code: T,
    pub message: T,
    pub recoverable: bool,
}

impl View for SessionError<String> {
    type V = SessionError<Seq<char>>;

    open spec fn view(&self) -> SessionError<Seq<char>> {
        SessionError { code: self.code@, message: self.message@, recoverable: self.recoverable }
    }
}

impl Clone for SessionError<String> {
    fn clone(&self) -> (r: Self)
        ensures
            r@ == self@,
    {
        SessionError {
            code: text::own(self.code.as_str()),
            message: text::own(self.message.as_str()),
            recoverable: self.recoverable,
        }
    }
}

/// A failure of an adapter as a failure of a session.
pub open spec fn session_error(e: AdapterError<Seq<char>>, recoverable: bool) -> SessionError<
    Seq<char>,
> {
    SessionError { code: e.code_text(), message: e.message_text(), recoverable }
}

impl SessionError {
    /// A failure of an adapter as a failure of a session.
    pub fn from_adapter(e: &AdapterError, recoverable: bool) -> (r: Self)
        ensures
            r@ == session_error(e@, recoverable),
    {
        SessionError { code: text::own(e.code()), message: e.message(), recoverable }
    }
}

/// The state of a session, as it is shown; `since` is when it was entered.
#[derive(Debug)]
pub struct SessionStateView<T = String> {
    pub state: SessionStateName,
    pub since: T,
    pub detail: Option<T>,
    pub control: ControlState,
    pub mirror: MirrorState,
    pub last_error: Option<SessionError<T>>,
}

impl View for SessionStateView<String> {
    type V = SessionStateView<Seq<char>>;

    open spec fn view(&self) -> SessionStateView<Seq<char>> {
        SessionStateView {
            state: self.state,
            since: self.since@,
            detail: text::opt_text(self.detail),
            control: self.control,
            mirror: self.mirror,
            last_error: match self.last_error {
                Some(e) => Some(e@),
                None => None,
            },
        }
    }
}

impl Clone for SessionStateView<String> {
    fn clone(&self) -> (r: Self)
        ensures
            r@ == self@,
    {
        SessionStateView {
            state: self.state,
            since: text::own(self.since.as_str()),
            detail: text::own_opt(&self.detail),
            control: self.control,
            mirror: self.mirror,
            last_error: match &self.last_error {
                Some(e) => Some(e.clone()),
                None => None,
            },
        }
    }
}

/// Something that is told to the outside about a session.
#[derive(Debug)]
pub enum Notice<T = String> {
    /// The state has changed.
    Session(SessionStateView<T>),
    /// The state of the input link.
    Hid(HidStatus<T>),
    /// The size of the picture.
    Metadata { width: u32, height: u32 },
    /// An error that is kept.
    Error(diagnostics::LogEntry<T>),
    /// Something that happened.
    Log(diagnostics::LogEntry<T>),
    /// The session is the active one, or none is.
    Active(Option<T>),
}

impl View for Notice<String> {
    type V = Notice<Seq<char>>;

    open spec fn view(&self) -> Notice<Seq<char>> {
        match self {
            Notice::Session(v) => Notice::Session(v@),
            Notice::Hid(s) => Notice::Hid(s@),
            Notice::Metadata { width, height } => Notice::Metadata {
                width: *width,
                height: *height,
            },
            Notice::Error(e) => Notice::Error(e@),
            Notice::Log(e) => Notice::Log(e@),
            Notice::Active(id) => Notice::Active(text::opt_text(*id)),
        }
    }
}

/// The contents of a list of notices.
pub open spec fn notices(v: Seq<Notice>) -> Seq<Notice<Seq<char>>> {
    Seq::new(v.len(), |i: int| v[i]@)
}

/// The last `max` of some entries.
pub open spec fn newest<A>(s: Seq<A>, max: nat) -> Seq<A> {
    if s.len() <= max {
        s
    } else {
        s.skip(s.len() - max)
    }
}

/// Keeps the last `max` entries.
pub fn keep_newest(log: &mut Vec<LogEntry>, max: usize)
    ensures
        diagnostics::entries(final(log)@) == newest(
            diagnostics::entries(old(log)@),
            max as nat,
        ),
{
    let ghost all = diagnostics::entries(log@);
    let ghost mut k: int = 0;
    assert(all.skip(0) =~= all);
    while log.len() > max
        invariant
            0 <= k <= all.len(),
            diagnostics::entries(log@) == all.skip(k),
            log@.len() == all.len() - k,
            k == 0 || log@.len() >= max,
        decreases log@.len(),
    {
        let ghost before = log@;
        let _ = log.remove(0);
        proof {
            assert(diagnostics::entries(log@) =~= diagnostics::entries(before).skip(1));
            assert(all.skip(k).skip(1) =~= all.skip(k + 1));
            k = k + 1;
        }
    }
}

// ---------------------------------------------------------------------------
// Telling
// ---------------------------------------------------------------------------

/// Something that notices are told to.
pub trait EventSink {
    /// Everything that it was told, in order, and about which session. Only proofs speak of it.
    open spec fn heard(&self) -> Seq<(Seq<char>, Notice<Seq<char>>)> {
        Seq::empty()
    }

    fn emit_session(&mut self, session_id: &str, view: &SessionStateView)
        ensures
            final(self).heard() == old(self).heard().push((session_id@, Notice::Session(view@))),
    ;

    fn emit_hid(&mut self, session_id: &str, status: &HidStatus)
        ensures
            final(self).heard() == old(self).heard().push((session_id@, Notice::Hid(status@))),
    ;

    fn emit_mirror_metadata(&mut self, session_id: &str, width: u32, height: u32)
        ensures
            final(self).heard() == old(self).heard().push(
                (session_id@, Notice::Metadata { width, height }),
            ),
    ;

    fn emit_diagnostic_error(&mut self, session_id: &str, entry: &LogEntry)
        ensures
            final(self).heard() == old(self).heard().push((session_id@, Notice::Error(entry@))),
    ;

    fn emit_log(&mut self, session_id: &str, entry: &LogEntry)
        ensures
            final(self).heard() == old(self).heard().push((session_id@, Notice::Log(entry@))),
    ;

    /// The session that is active has changed.
    fn emit_active_changed(&mut self, session_id: &Option<String>)
        ensures
            final(self).heard() == old(self).heard().push(
                (Seq::empty(), Notice::Active(text::opt_text(*session_id))),
            ),
    ;
}

/// A notice as it is heard: which session is active is told of no session.
pub open spec fn addressed(id: Seq<char>, n: Notice<Seq<char>>) -> (
    Seq<char>,
    Notice<Seq<char>>,
) {
    (
        if n is Active {
            Seq::empty()
        } else {
            id
        },
        n,
    )
}

/// Notices about one session, as they are heard.
pub open spec fn about(id: Seq<char>, v: Seq<Notice<Seq<char>>>) -> Seq<
    (Seq<char>, Notice<Seq<char>>),
> {
    Seq::new(v.len(), |i: int| addressed(id, v[i]))
}

/// Tells notices about a session, in order.
pub fn deliver<S: EventSink>(id: &str, v: &Vec<Notice>, sink: &mut S)
    ensures
        final(sink).heard() == old(sink).heard() + about(id@, notices(v@)),
{
    let ghost start = sink.heard();
    let ghost all = about(id@, notices(v@));
    let mut i: usize = 0;
    assert(sink.heard() =~= start + all.take(0));
    while i < v.len()
        invariant
            i <= v@.len(),
            all == about(id@, notices(v@)),
            sink.heard() == start + all.take(i as int),
        decreases v@.len() - i,
    {
        match &v[i] {
            Notice::Session(view) => sink.emit_session(id, view),
            Notice::Hid(status) => sink.emit_hid(id, status),
            Notice::Metadata { width, height } => sink.emit_mirror_metadata(
                id,
                *width,
                *height,
            ),
            Notice::Error(e) => sink.emit_diagnostic_error(id, e),
            Notice::Log(e) => sink.emit_log(id, e),
            Notice::Active(a) => sink.emit_active_changed(a),
        }
        proof {
            assert(all[i as int] == addressed(id@, v@[i as int]@));
            assert(start + all.take(i + 1) =~= (start + all.take(i as int)).push(all[i as int]));
        }
        i = i + 1;
    }
    assert(all.take(i as int) =~= all);
}

// ---------------------------------------------------------------------------
// The registry
// ---------------------------------------------------------------------------

/// Whom the entries are told of that belong to no session: the window of the program.
pub const FRONTEND: &'static str = "frontend";

/// The first port of the first receiver.
pub const FIRST_PORT: u16 = 6000;

/// How many entries the log of the whole program keeps.
pub const RUNTIME_LOG_LIMIT: usize = 500;

/// All sessions, and which one is active: the one that input goes to.
pub struct SessionRegistry {
    pub resources: String,
    pub sessions: Vec<DeviceSession>,
    pub active: Option<String>,
    pub runtime_log: Vec<LogEntry>,
    pub next_port: u16,
    /// What is to be told that belongs to no session.
    pub outbox: Vec<Notice>,
}

/// What the registry holds.
pub struct RegistryModel {
    pub resources: Seq<char>,
    pub sessions: Seq<SessionModel>,
    pub active: Option<Seq<char>>,
    pub runtime_log: Seq<diagnostics::LogEntry<Seq<char>>>,
    pub next_port: u16,
    pub outbox: Seq<Notice<Seq<char>>>,
}

/// The contents of a list of sessions.
pub open spec fn session_models(v: Seq<DeviceSession>) -> Seq<SessionModel> {
    Seq::new(v.len(), |i: int| v[i]@)
}

impl View for SessionRegistry {
    type V = RegistryModel;

    open spec fn view(&self) -> RegistryModel {
        RegistryModel {
            resources: self.resources@,
            sessions: session_models(self.sessions@),
            active: text::opt_text(self.active),
            runtime_log: diagnostics::entries(self.runtime_log@),
            next_port: self.next_port,
            outbox: notices(self.outbox@),
        }
    }
}

/// Whether a session has a name.
pub open spec fn is_named(id: Seq<char>) -> spec_fn(SessionModel) -> bool {
    |s: SessionModel| s.id == id
}

impl RegistryModel {
    /// The session with a name.
    pub open spec fn session(self, id: Seq<char>) -> SessionModel {
        self.sessions[self.place(id)]
    }

    /// After the session with a name became another, where there is one.
    pub open spec fn with_session(self, id: Seq<char>, s: SessionModel) -> RegistryModel {
        if self.has(id) {
            RegistryModel { sessions: self.sessions.update(self.place(id), s), ..self }
        } else {
            self
        }
    }

    /// Where the session with a name stands; the number of sessions where there is none.
    pub open spec fn place(self, id: Seq<char>) -> int {
        seqs::first_from(self.sessions, is_named(id), 0)
    }

    pub open spec fn has(self, id: Seq<char>) -> bool {
        exists|i: int| 0 <= i < self.sessions.len() && (#[trigger] self.sessions[i]).id == id
    }

    /// No two sessions have one name, and the active session is one of them.
    pub open spec fn wf(self) -> bool {
        &&& forall|i: int, j: int|
            0 <= i < j < self.sessions.len() ==> (#[trigger] self.sessions[i]).id != (
            #[trigger] self.sessions[j]).id
        &&& self.active matches Some(id) ==> self.has(id)
    }

    /// After the active session changed.
    pub open spec fn with_active(self, id: Option<Seq<char>>) -> RegistryModel {
        RegistryModel { active: id, outbox: self.outbox.push(Notice::Active(id)), ..self }
    }

    /// After a session became active where none was.
    pub open spec fn with_first(self, id: Seq<char>) -> RegistryModel {
        if self.active is None {
            self.with_active(Some(id))
        } else {
            self
        }
    }

    /// What is reported of a name that is taken.
    pub open spec fn taken(self, id: Seq<char>) -> AdapterError<Seq<char>> {
        AdapterError::Busy("设备 "@ + id + " 已在会话中"@)
    }

    /// What is reported of a name that no session has.
    pub open spec fn unknown(self, id: Seq<char>) -> AdapterError<Seq<char>> {
        AdapterError::Failed("会话不存在："@ + id)
    }

    /// The session that is started.
    pub open spec fn started_session(
        self,
        kind: DeviceKind,
        id: Seq<char>,
        prefs: Option<SessionPreferences>,
        failure: Option<AdapterError<Seq<char>>>,
        at: Seq<char>,
    ) -> SessionModel {
        device::fresh(id, kind, self.next_port, at).after_start(prefs, failure, at)
    }

    /// After a session was started. One whose checks failed stays, so that it can be shown;
    /// one whose checks passed becomes active once its picture was started.
    pub open spec fn after_start(
        self,
        kind: DeviceKind,
        id: Seq<char>,
        prefs: Option<SessionPreferences>,
        failure: Option<AdapterError<Seq<char>>>,
        at: Seq<char>,
    ) -> RegistryModel {
        if self.has(id) {
            self
        } else {
            let m = RegistryModel {
                sessions: self.sessions.push(
                    self.started_session(kind, id, prefs, failure, at),
                ),
                next_port: port_after(self.next_port),
                ..self
            };
            if failure is Some {
                m.with_first(id)
            } else {
                m
            }
        }
    }

    /// After the picture of a session was started, or was not.
    pub open spec fn after_launch(self, id: Seq<char>) -> RegistryModel {
        if self.has(id) {
            self.with_first(id)
        } else {
            self
        }
    }

    /// After a session was ended: where it was the active one, another one becomes active.
    pub open spec fn after_stop(self, id: Seq<char>) -> RegistryModel {
        let i = self.place(id);
        if !(0 <= i < self.sessions.len()) {
            self
        } else {
            let m = RegistryModel { sessions: self.sessions.remove(i), ..self };
            if self.active == Some(id) {
                m.with_active(
                    if m.sessions.len() == 0 {
                        None
                    } else {
                        Some(m.sessions[0].id)
                    },
                )
            } else {
                m
            }
        }
    }

    /// After all sessions were ended, one after the other.
    pub open spec fn after_stop_all(self) -> RegistryModel
        decreases self.sessions.len(),
    {
        if self.sessions.len() == 0 {
            self.with_active(None)
        } else {
            let m = self.after_stop(self.sessions[0].id);
            if m.sessions.len() < self.sessions.len() {
                m.after_stop_all()
            } else {
                self
            }
        }
    }

    /// After a session became the active one: what is pressed on the one before is released.
    pub open spec fn after_activate(self, id: Seq<char>) -> RegistryModel {
        if !self.has(id) {
            self
        } else {
            let m = match self.active {
                Some(before) => {
                    let i = self.place(before);
                    if before != id && 0 <= i < self.sessions.len() {
                        RegistryModel {
                            sessions: self.sessions.update(i, self.sessions[i].after_release()),
                            ..self
                        }
                    } else {
                        self
                    }
                },
                None => self,
            };
            m.with_active(Some(id))
        }
    }

    /// What is released when a session becomes the active one.
    pub open spec fn activation_work(self, id: Seq<char>) -> ReleaseWork {
        match self.active {
            Some(before) => {
                let i = self.place(before);
                if before != id && 0 <= i < self.sessions.len() {
                    self.sessions[i].release_work()
                } else {
                    ReleaseWork::Nothing
                }
            },
            None => ReleaseWork::Nothing,
        }
    }

    /// After the window of the program reported something.
    pub open spec fn after_frontend_log(self, e: diagnostics::LogEntry<Seq<char>>) -> RegistryModel {
        RegistryModel {
            runtime_log: newest(self.runtime_log.push(e), RUNTIME_LOG_LIMIT as nat),
            outbox: self.outbox.push(Notice::Log(e)),
            ..self
        }
    }
}

/// The port after the ports of a receiver, which takes three.
pub open spec fn port_after(port: u16) -> u16 {
    ((port + 3) % 0x1_0000) as u16
}

proof fn lemma_place(m: RegistryModel, id: Seq<char>)
    ensures
        0 <= m.place(id) <= m.sessions.len(),
        m.has(id) == (m.place(id) < m.sessions.len()),
        m.place(id) < m.sessions.len() ==> m.sessions[m.place(id)].id == id,
{
    seqs::lemma_first_from(m.sessions, is_named(id), 0);
    if m.has(id) {
        let i = choose|i: int| 0 <= i < m.sessions.len() && (#[trigger] m.sessions[i]).id == id;
        assert(is_named(id)(m.sessions[i]));
    }
    if m.place(id) < m.sessions.len() {
        assert(m.sessions[m.place(id)].id == id);
    }
}

proof fn lemma_start_keeps_id(
    m: SessionModel,
    prefs: Option<SessionPreferences>,
    failure: Option<AdapterError<Seq<char>>>,
    at: Seq<char>,
)
    ensures
        m.after_start(prefs, failure, at).id == m.id,
        m.after_start(prefs, failure, at).uxplay_port == m.uxplay_port,
{
}

/// Starting a session keeps the names apart and the active session among them.
pub proof fn starting_keeps_order(
    m: RegistryModel,
    kind: DeviceKind,
    id: Seq<char>,
    prefs: Option<SessionPreferences>,
    failure: Option<AdapterError<Seq<char>>>,
    at: Seq<char>,
)
    requires
        m.wf(),
    ensures
        m.after_start(kind, id, prefs, failure, at).wf(),
        m.after_start(kind, id, prefs, failure, at).has(id),
{
    let n = m.after_start(kind, id, prefs, failure, at);
    if !m.has(id) {
        let s = m.started_session(kind, id, prefs, failure, at);
        lemma_start_keeps_id(device::fresh(id, kind, m.next_port, at), prefs, failure, at);
        assert(s.id == id);
        assert(n.sessions[m.sessions.len() as int].id == id);
        match m.active {
            Some(a) => {
                let i = choose|i: int|
                    0 <= i < m.sessions.len() && (#[trigger] m.sessions[i]).id == a;
                assert(n.sessions[i].id == a);
            },
            None => {},
        }
    }
}

/// A session that could not be started stays, in `Failed` and with the error kept, and is the
/// active one where none was: because its checks failed, or because its picture could not be
/// started afterwards.
pub proof fn failed_starts_stay(
    m: RegistryModel,
    kind: DeviceKind,
    id: Seq<char>,
    prefs: Option<SessionPreferences>,
    e: AdapterError<Seq<char>>,
    at: Seq<char>,
    later: Seq<char>,
)
    requires
        m.wf(),
        !m.has(id),
    ensures
        ({
            let n = m.after_start(kind, id, prefs, Some(e), at);
            &&& n.has(id)
            &&& n.session(id).state is Failed
            &&& n.session(id).last_error == Some(session_error(e, true))
            &&& m.active is None ==> n.active == Some(id)
        }),
        ({
            let s = m.after_start(kind, id, prefs, None, at);
            let n = s.with_session(id, s.session(id).after_launch_failed(e, later)).after_launch(
                id,
            );
            &&& n.has(id)
            &&& n.session(id).state is Failed
            &&& n.session(id).last_error == Some(session_error(e, true))
            &&& m.active is None ==> n.active == Some(id)
        }),
{
    let new = device::fresh(id, kind, m.next_port, at);
    device::failed_starts_are_kept(new, prefs, e, at, later);
    starting_keeps_order(m, kind, id, prefs, Some(e), at);
    starting_keeps_order(m, kind, id, prefs, None, at);
    lemma_place_of_last(m, kind, id, prefs, Some(e), at);
    lemma_place_of_last(m, kind, id, prefs, None, at);
    let s = m.after_start(kind, id, prefs, None, at);
    let failed = s.session(id).after_launch_failed(e, later);
    lemma_start_keeps_id(new, prefs, None, at);
    one_session_at_a_time(s, id, failed);
    let t = s.with_session(id, failed);
    lemma_place(t, id);
    let n = t.after_launch(id);
    lemma_place(n, id);
    lemma_place(s, id);
    assert(t.sessions[s.place(id)] == failed);
    assert(t.place(id) == s.place(id)) by {
        assert(t.sessions[t.place(id)].id == id);
        assert(t.sessions[s.place(id)].id == id);
    }
    assert(n.sessions == t.sessions);
}

proof fn lemma_place_of_last(
    m: RegistryModel,
    kind: DeviceKind,
    id: Seq<char>,
    prefs: Option<SessionPreferences>,
    failure: Option<AdapterError<Seq<char>>>,
    at: Seq<char>,
)
    requires
        m.wf(),
        !m.has(id),
    ensures
        m.after_start(kind, id, prefs, failure, at).session(id) == m.started_session(
            kind,
            id,
            prefs,
            failure,
            at,
        ),
{
    let n = m.after_start(kind, id, prefs, failure, at);
    starting_keeps_order(m, kind, id, prefs, failure, at);
    lemma_place(n, id);
    let p = n.place(id);
    assert(n.sessions[p].id == id);
    if p < m.sessions.len() {
        assert(m.sessions[p].id == id);
    }
}

/// Ending a session removes it and no other, keeps the names apart, and leaves a session
/// active as long as there is one and one was.
pub proof fn stopping_keeps_order(m: RegistryModel, id: Seq<char>)
    requires
        m.wf(),
    ensures
        m.after_stop(id).wf(),
        !m.after_stop(id).has(id),
        m.has(id) ==> m.after_stop(id).sessions.len() == m.sessions.len() - 1,
        forall|k: Seq<char>| k != id ==> m.after_stop(id).has(k) == m.has(k),
        m.active is Some && m.after_stop(id).sessions.len() > 0 ==> m.after_stop(id).active is Some,
{
    lemma_place(m, id);
    let i = m.place(id);
    let n = m.after_stop(id);
    if m.has(id) {
        assert forall|k: Seq<char>| k != id implies n.has(k) == m.has(k) by {
            if m.has(k) {
                let j = choose|j: int|
                    0 <= j < m.sessions.len() && (#[trigger] m.sessions[j]).id == k;
                if j < i {
                    assert(n.sessions[j].id == k);
                } else {
                    assert(n.sessions[j - 1].id == k);
                }
            }
            if n.has(k) {
                let j = choose|j: int|
                    0 <= j < n.sessions.len() && (#[trigger] n.sessions[j]).id == k;
                if j < i {
                    assert(m.sessions[j].id == k);
                } else {
                    assert(m.sessions[j + 1].id == k);
                }
            }
        }
        assert(!n.has(id)) by {
            if n.has(id) {
                let j = choose|j: int|
                    0 <= j < n.sessions.len() && (#[trigger] n.sessions[j]).id == id;
                if j < i {
                    assert(m.sessions[j].id == id);
                } else {
                    assert(m.sessions[j + 1].id == id);
                }
            }
        }
        if m.active != Some(id) {
            match m.active {
                Some(a) => {
                    assert(m.has(a));
                    assert(n.has(a));
                },
                None => {},
            }
        } else if n.sessions.len() > 0 {
            assert(n.has(n.sessions[0].id));
        }
        assert(n.wf());
    }
}

/// Making a session active keeps the names apart, and only a session that is there becomes
/// active.
pub proof fn activating_keeps_order(m: RegistryModel, id: Seq<char>)
    requires
        m.wf(),
    ensures
        m.after_activate(id).wf(),
        m.has(id) ==> m.after_activate(id).active == Some(id),
        !m.has(id) ==> m.after_activate(id) == m,
{
    if m.has(id) {
        let n = m.after_activate(id);
        match m.active {
            Some(before) => {
                lemma_place(m, before);
            },
            None => {},
        }
        assert forall|k: int| 0 <= k < m.sessions.len() implies (#[trigger] n.sessions[k]).id
            == m.sessions[k].id by {}
        let j = choose|j: int| 0 <= j < m.sessions.len() && (#[trigger] m.sessions[j]).id == id;
        assert(n.sessions[j].id == id);
        assert(n.has(id));
    }
}

/// When another session becomes the active one, everything that is pressed on the one before is
/// released first, and no other session changes.
pub proof fn activating_releases_the_one_before(
    m: RegistryModel,
    before: Seq<char>,
    id: Seq<char>,
)
    requires
        m.wf(),
        m.has(id),
        m.active == Some(before),
        before != id,
    ensures
        m.activation_work(id) == m.session(before).release_work(),
        m.after_activate(id).sessions.len() == m.sessions.len(),
        forall|i: int|
            0 <= i < m.sessions.len() ==> #[trigger] m.after_activate(id).sessions[i] == (
            if m.sessions[i].id == before {
                m.sessions[i].after_release()
            } else {
                m.sessions[i]
            }),
{
    lemma_place(m, before);
    let p = m.place(before);
    assert(m.sessions[p].id == before);
}

/// What happens to one session keeps the names apart, as long as its name stays.
pub proof fn one_session_at_a_time(m: RegistryModel, id: Seq<char>, s: SessionModel)
    requires
        m.wf(),
        s.id == id,
    ensures
        m.with_session(id, s).wf(),
        m.with_session(id, s).active == m.active,
        forall|k: Seq<char>| m.with_session(id, s).has(k) == m.has(k),
        forall|i: int|
            0 <= i < m.sessions.len() && m.sessions[i].id != id ==> #[trigger] m.with_session(
                id,
                s,
            ).sessions[i] == m.sessions[i],
{
    lemma_place(m, id);
    let n = m.with_session(id, s);
    if m.has(id) {
        assert forall|k: int| 0 <= k < m.sessions.len() implies (#[trigger] n.sessions[k]).id
            == m.sessions[k].id by {}
        assert forall|k: Seq<char>| n.has(k) == m.has(k) by {
            if m.has(k) {
                let j = choose|j: int|
                    0 <= j < m.sessions.len() && (#[trigger] m.sessions[j]).id == k;
                assert(n.sessions[j].id == k);
            }
            if n.has(k) {
                let j = choose|j: int|
                    0 <= j < n.sessions.len() && (#[trigger] n.sessions[j]).id == k;
                assert(m.sessions[j].id == k);
            }
        }
    }
}

/// Sessions of which only the one with a name changed, and kept its name.
pub proof fn lemma_one_changed(m: RegistryModel, id: Seq<char>, sessions: Seq<DeviceSession>)
    requires
        m.has(id),
        sessions.len() == m.sessions.len(),
        forall|j: int|
            0 <= j < sessions.len() && j != m.place(id) ==> (#[trigger] sessions[j])@
                == m.sessions[j],
        sessions[m.place(id)]@.id == id,
    ensures
        session_models(sessions) == m.with_session(id, sessions[m.place(id)]@).sessions,
        m.wf() ==> m.with_session(id, sessions[m.place(id)]@).wf(),
{
    lemma_place(m, id);
    let s = sessions[m.place(id)]@;
    assert(session_models(sessions) =~= m.sessions.update(m.place(id), s));
    if m.wf() {
        one_session_at_a_time(m, id, s);
    }
}

/// After all sessions were ended there is none, and none is active; this is told.
pub proof fn stopping_all_leaves_nothing(m: RegistryModel)
    requires
        m.wf(),
    ensures
        m.after_stop_all().sessions.len() == 0,
        m.after_stop_all().active is None,
        m.after_stop_all().outbox.len() > 0,
        m.after_stop_all().outbox.last() == Notice::<Seq<char>>::Active(None),
    decreases m.sessions.len(),
{
    if m.sessions.len() > 0 {
        assert(m.has(m.sessions[0].id));
        stopping_keeps_order(m, m.sessions[0].id);
        stopping_all_leaves_nothing(m.after_stop(m.sessions[0].id));
    }
}

/// Whether the three ports of each session are below the next port and apart from those of
/// every other one.
pub open spec fn ports_apart(m: RegistryModel) -> bool {
    &&& forall|i: int|
        0 <= i < m.sessions.len() ==> (#[trigger] m.sessions[i]).uxplay_port + 3 <= m.next_port
    &&& forall|i: int, j: int|
        0 <= i < j < m.sessions.len() ==> {
            ||| (#[trigger] m.sessions[i]).uxplay_port + 3 <= (
            #[trigger] m.sessions[j]).uxplay_port
            ||| m.sessions[j].uxplay_port + 3 <= m.sessions[i].uxplay_port
        }
}

/// The ports of the receivers never overlap, as long as the ports have not all been given out.
pub proof fn ports_stay_apart(
    m: RegistryModel,
    kind: DeviceKind,
    id: Seq<char>,
    prefs: Option<SessionPreferences>,
    failure: Option<AdapterError<Seq<char>>>,
    at: Seq<char>,
)
    requires
        ports_apart(m),
        m.next_port + 3 <= u16::MAX,
    ensures
        ports_apart(m.after_start(kind, id, prefs, failure, at)),
        !m.has(id) ==> m.after_start(kind, id, prefs, failure, at).next_port == m.next_port + 3,
        !m.has(id) ==> m.after_start(kind, id, prefs, failure, at).sessions.last().uxplay_port
            == m.next_port,
{
    lemma_start_keeps_id(device::fresh(id, kind, m.next_port, at), prefs, failure, at);
}

impl SessionRegistry {
    /// No sessions.
    pub fn new(resources: String) -> (r: Self)
        ensures
            r@ == (RegistryModel {
                resources: resources@,
                sessions: Seq::empty(),
                active: None,
                runtime_log: Seq::empty(),
                next_port: FIRST_PORT,
                outbox: Seq::empty(),
            }),
            r@.wf(),
            ports_apart(r@),
    {
        let r = SessionRegistry {
            resources,
            sessions: Vec::new(),
            active: None,
            runtime_log: Vec::new(),
            next_port: FIRST_PORT,
            outbox: Vec::new(),
        };
        assert(r@.sessions =~= Seq::empty());
        assert(r@.runtime_log =~= Seq::empty());
        assert(r@.outbox =~= Seq::empty());
        r
    }

    /// Where the session with a name stands.
    pub fn index_of(&self, id: &str) -> (r: Option<usize>)
        ensures
            match r {
                Some(i) => i == self@.place(id@) && i < self.sessions@.len() && self@.has(id@)
                    && self.sessions@[i as int]@.id == id@,
                None => !self@.has(id@) && self@.place(id@) == self@.sessions.len(),
            },
    {
        let ghost all = self@.sessions;
        let ghost f = is_named(id@);
        let mut i: usize = 0;
        while i < self.sessions.len()
            invariant
                i <= self.sessions@.len(),
                all == self@.sessions,
                all == session_models(self.sessions@),
                f == is_named(id@),
                forall|j: int| 0 <= j < i ==> !f(#[trigger] all[j]),
            decreases self.sessions@.len() - i,
        {
            assert(all[i as int] == self.sessions@[i as int]@);
            if text::same(self.sessions[i].id.as_str(), id) {
                proof {
                    seqs::lemma_first_from_is(all, f, 0, i as int);
                    lemma_place(self@, id@);
                }
                return Some(i);
            }
            i = i + 1;
        }
        proof {
            seqs::lemma_first_from_is(all, f, 0, i as int);
            lemma_place(self@, id@);
        }
        None
    }

    fn set_active(&mut self, id: Option<String>)
        ensures
            final(self)@ == old(self)@.with_active(text::opt_text(id)),
            final(self).sessions == old(self).sessions,
    {
        let ghost before = self.outbox@;
        let n = Notice::Active(text::own_opt(&id));
        self.outbox.push(n);
        assert(notices(self.outbox@) =~= notices(before).push(n@));
        self.active = id;
    }

    /// Starts the session of a device; `checks` is what came of the checks. One whose checks
    /// failed stays, so that it can be shown and ended.
    pub fn start_session(
        &mut self,
        kind: DeviceKind,
        id: String,
        prefs: Option<SessionPreferences>,
        checks: Result<(), AdapterError>,
        at: &str,
    ) -> (r: Result<(), AdapterError>)
        requires
            old(self)@.wf(),
        ensures
            final(self)@ == old(self)@.after_start(
                kind,
                id@,
                prefs,
                device::step_failure(checks),
                at@,
            ),
            final(self)@.wf(),
            device::step_failure(r) == (if old(self)@.has(id@) {
                Some(old(self)@.taken(id@))
            } else {
                device::step_failure(checks)
            }),
    {
        proof {
            starting_keeps_order(
                self@,
                kind,
                id@,
                prefs,
                device::step_failure(checks),
                at@,
            );
        }
        match self.index_of(id.as_str()) {
            Some(_) => {
                return Err(
                    AdapterError::Busy(text::cat3("设备 ", id.as_str(), " 已在会话中")),
                );
            },
            None => {},
        }
        let failed = checks.is_err();
        let port = self.next_port;
        self.next_port = port.wrapping_add(3);
        let mut session = DeviceSession::new(text::own(id.as_str()), kind, port, at);
        let result = session.start_session(prefs, checks, at);
        let ghost before = session_models(self.sessions@);
        let ghost s = session@;
        self.sessions.push(session);
        assert(session_models(self.sessions@) =~= before.push(s));
        if failed && self.active.is_none() {
            self.set_active(Some(id));
        }
        result
    }

    /// Goes on once the picture of a session was started, or was not: the first session
    /// becomes the active one.
    pub fn picture_launched(&mut self, id: &str)
        requires
            old(self)@.wf(),
        ensures
            final(self)@ == old(self)@.after_launch(id@),
            final(self)@.wf(),
    {
        match self.index_of(id) {
            Some(_) => {
                if self.active.is_none() {
                    self.set_active(Some(text::own(id)));
                }
            },
            None => {},
        }
    }

    /// Ends the session of a device; says what is to be stopped and told. Where there is none,
    /// nothing happens.
    pub fn stop_session(&mut self, id: &str, at: &str) -> (r: Result<
        Option<StoppedSession>,
        AdapterError,
    >)
        requires
            old(self)@.wf(),
        ensures
            final(self)@ == old(self)@.after_stop(id@),
            final(self)@.wf(),
            match r {
                Ok(Some(stopped)) => old(self)@.has(id@) && stopped.id@ == id@ && stopped.work
                    == old(self)@.sessions[old(self)@.place(id@)].stop_work() && notices(
                    stopped.notices@,
                ) == old(self)@.sessions[old(self)@.place(id@)].after_stop(at@).outbox,
                Ok(None) => !old(self)@.has(id@),
                Err(_) => false,
            },
    {
        proof {
            stopping_keeps_order(self@, id@);
        }
        match self.index_of(id) {
            None => Ok(None),
            Some(i) => {
                let ghost all = session_models(self.sessions@);
                let mut session = self.sessions.remove(i);
                assert(session_models(self.sessions@) =~= all.remove(i as int));
                assert(session@ == all[i as int]);
                let (work, _) = session.stop_session(at);
                let sent = session.take_outbox();
                let was_active = match &self.active {
                    Some(a) => text::same(a.as_str(), id),
                    None => false,
                };
                if was_active {
                    let next = if self.sessions.len() == 0 {
                        None
                    } else {
                        assert(session_models(self.sessions@)[0] == self.sessions@[0]@);
                        Some(text::own(self.sessions[0].id.as_str()))
                    };
                    self.set_active(next);
                }
                Ok(Some(StoppedSession { id: text::own(id), work, notices: sent }))
            },
        }
    }

    /// Ends all sessions; says what is to be stopped and told.
    pub fn stop_all(&mut self, at: &str) -> (r: Vec<StoppedSession>)
        requires
            old(self)@.wf(),
        ensures
            final(self)@ == old(self)@.after_stop_all(),
            final(self)@.wf(),
            final(self)@.sessions.len() == 0,
            final(self)@.active is None,
            r@.len() == old(self)@.sessions.len(),
            forall|i: int|
                0 <= i < r@.len() ==> (#[trigger] r@[i]).id@ == old(self)@.sessions[i].id
                    && r@[i].work == old(self)@.sessions[i].stop_work() && notices(
                    r@[i].notices@,
                ) == old(self)@.sessions[i].after_stop(at@).outbox,
    {
        let ghost start = self@;
        let ghost all = self@.sessions;
        let mut out: Vec<StoppedSession> = Vec::new();
        proof {
            stopping_all_leaves_nothing(self@);
            assert(all.skip(0) =~= all);
        }
        while self.sessions.len() > 0
            invariant
                self@.wf(),
                start == old(self)@,
                all == start.sessions,
                out@.len() <= all.len(),
                self@.sessions == all.skip(out@.len() as int),
                self@.after_stop_all() == start.after_stop_all(),
                forall|i: int|
                    0 <= i < out@.len() ==> (#[trigger] out@[i]).id@ == all[i].id && out@[i].work
                        == all[i].stop_work() && notices(out@[i].notices@) == all[i].after_stop(
                        at@,
                    ).outbox,
            decreases self.sessions@.len(),
        {
            let id = text::own(self.sessions[0].id.as_str());
            let ghost k = out@.len() as int;
            let ghost now = self@;
            proof {
                assert(now.sessions[0] == self.sessions@[0]@);
                assert(now.sessions[0] == all[k]);
                assert(is_named(id@)(now.sessions[0]));
                seqs::lemma_first_from_is(now.sessions, is_named(id@), 0, 0);
                stopping_keeps_order(now, id@);
                assert(now.has(id@));
            }
            match self.stop_session(id.as_str(), at) {
                Ok(Some(stopped)) => {
                    out.push(stopped);
                    proof {
                        assert(now.sessions.remove(0) =~= all.skip(k + 1));
                        assert(self@.sessions == all.skip(k + 1));
                        assert(self@.sessions.len() == self.sessions@.len());
                        assert(now.sessions.len() == self.sessions@.len() + 1);
                    }
                },
                _ => {},
            }
        }
        proof {
            assert(self@.sessions.len() == 0);
        }
        self.set_active(None);
        out
    }

    /// Makes a session the active one; says what is to be released on the one before.
    pub fn activate(&mut self, id: &str) -> (r: Result<ReleaseWork, AdapterError>)
        requires
            old(self)@.wf(),
        ensures
            final(self)@ == old(self)@.after_activate(id@),
            final(self)@.wf(),
            match r {
                Ok(work) => old(self)@.has(id@) && work == old(self)@.activation_work(id@),
                Err(e) => !old(self)@.has(id@) && e@ == old(self)@.unknown(id@),
            },
    {
        proof {
            activating_keeps_order(self@, id@);
        }
        match self.index_of(id) {
            None => {
                return Err(AdapterError::Failed(text::cat2("会话不存在：", id)));
            },
            Some(_) => {},
        }
        let mut work = ReleaseWork::Nothing;
        match text::own_opt(&self.active) {
            Some(before) => {
                if !text::same(before.as_str(), id) {
                    match self.index_of(before.as_str()) {
                        Some(i) => {
                            let ghost all = session_models(self.sessions@);
                            work = self.sessions[i].release_all_input();
                            assert(session_models(self.sessions@) =~= all.update(
                                i as int,
                                all[i as int].after_release(),
                            ));
                        },
                        None => {},
                    }
                }
            },
            None => {},
        }
        self.set_active(Some(text::own(id)));
        Ok(work)
    }

    /// The name of the active session.
    pub fn active(&self) -> (r: Option<String>)
        ensures
            text::opt_text(r) == self@.active,
    {
        text::own_opt(&self.active)
    }

    /// The session with a name.
    pub fn get(&self, id: &str) -> (r: Option<&DeviceSession>)
        ensures
            match r {
                Some(s) => self@.has(id@) && s@ == self@.sessions[self@.place(id@)] && s@.id
                    == id@,
                None => !self@.has(id@),
            },
    {
        match self.index_of(id) {
            Some(i) => {
                assert(self@.sessions[i as int] == self.sessions@[i as int]@);
                Some(&self.sessions[i])
            },
            None => None,
        }
    }

    /// How many sessions there are.
    pub fn count(&self) -> (r: usize)
        ensures
            r == self@.sessions.len(),
    {
        self.sessions.len()
    }

    /// The resource directory of the program.
    pub fn resources_dir(&self) -> (r: &str)
        ensures
            r@ == self@.resources,
    {
        self.resources.as_str()
    }

    /// Notes that the frames of a session have somewhere to go.
    pub fn attach_frame_sink(&mut self, id: &str) -> (r: Result<(), AdapterError>)
        ensures
            device::step_failure(r) == (if old(self)@.has(id@) {
                None
            } else {
                Some(old(self)@.unknown(id@))
            }),
            final(self)@ == old(self)@.with_session(
                id@,
                SessionModel { frame_sink: true, ..old(self)@.session(id@) },
            ),
            old(self)@.wf() ==> final(self)@.wf(),
    {
        match self.index_of(id) {
            None => Err(AdapterError::Failed(text::cat2("会话不存在：", id))),
            Some(i) => {
                let ghost before = self@;
                let r = self.sessions[i].attach_frame_sink();
                proof {
                    lemma_one_changed(before, id@, self.sessions@);
                }
                r
            },
        }
    }

    /// Switches the test picture of a session; says whether it is to be started.
    pub fn frame_test_mode(&mut self, id: &str, enabled: bool) -> (r: Result<bool, AdapterError>)
        ensures
            final(self)@ == old(self)@.with_session(
                id@,
                old(self)@.session(id@).with_test_frames(enabled),
            ),
            match r {
                Ok(start) => start == enabled && old(self)@.has(id@) && old(self)@.session(
                    id@,
                ).test_frames_refusal(enabled) is None,
                Err(e) => Some(e@) == (if old(self)@.has(id@) {
                    old(self)@.session(id@).test_frames_refusal(enabled)
                } else {
                    Some(old(self)@.unknown(id@))
                }),
            },
            old(self)@.wf() ==> final(self)@.wf(),
    {
        match self.index_of(id) {
            None => Err(AdapterError::Failed(text::cat2("会话不存在：", id))),
            Some(i) => {
                let ghost before = self@;
                let r = self.sessions[i].set_test_frames(enabled);
                proof {
                    lemma_one_changed(before, id@, self.sessions@);
                }
                r
            },
        }
    }

    /// Notes what the window of the program reports.
    pub fn record_frontend_log(&mut self, entry: LogEntry)
        ensures
            final(self)@ == old(self)@.after_frontend_log(entry@),
    {
        let ghost told = self.outbox@;
        self.outbox.push(Notice::Log(entry.clone()));
        assert(notices(self.outbox@) =~= notices(told).push(Notice::Log(entry@)));
        let ghost before = self.runtime_log@;
        self.runtime_log.push(entry);
        assert(diagnostics::entries(self.runtime_log@) =~= diagnostics::entries(before).push(
            entry@,
        ));
        keep_newest(&mut self.runtime_log, RUNTIME_LOG_LIMIT);
    }

    /// Takes what is to be told that belongs to no session.
    pub fn take_outbox(&mut self) -> (r: Vec<Notice>)
        ensures
            final(self)@ == (RegistryModel { outbox: Seq::empty(), ..old(self)@ }),
            notices(r@) == old(self)@.outbox,
    {
        let mut out: Vec<Notice> = Vec::new();
        out.append(&mut self.outbox);
        assert(notices(self.outbox@) =~= Seq::empty());
        assert(notices(out@) =~= old(self)@.outbox);
        out
    }

    /// Tells what is to be told that belongs to no session, as of the window of the program.
    pub fn tell_outbox<S: EventSink>(&mut self, sink: &mut S)
        ensures
            final(self)@ == (RegistryModel { outbox: Seq::empty(), ..old(self)@ }),
            final(sink).heard() == old(sink).heard() + about(FRONTEND@, old(self)@.outbox),
    {
        let waiting = self.take_outbox();
        deliver(FRONTEND, &waiting, sink);
    }
}

/// An entry that the window of the program reports is told once, under its label, and kept as
/// the newest one of the log of the whole program.
pub proof fn reports_of_the_window_are_told_and_kept(
    m: RegistryModel,
    e: diagnostics::LogEntry<Seq<char>>,
)
    ensures
        about(FRONTEND@, m.after_frontend_log(e).outbox) == about(FRONTEND@, m.outbox).push(
            (FRONTEND@, Notice::Log(e)),
        ),
        m.after_frontend_log(e).runtime_log.last() == e,
        m.after_frontend_log(e).runtime_log.len() <= RUNTIME_LOG_LIMIT,
{
    let n = m.after_frontend_log(e);
    assert(about(FRONTEND@, n.outbox) =~= about(FRONTEND@, m.outbox).push(
        (FRONTEND@, Notice::Log(e)),
    ));
}

/// A session that was ended: what is to be stopped and what is to be told.
#[derive(Debug)]
pub struct StoppedSession {
    pub id: String,
    pub work: StopWork,
    pub notices: Vec<Notice>,
}

// ---------------------------------------------------------------------------
// Lists in order
// ---------------------------------------------------------------------------

/// Puts an entry behind all that are not later than it.
pub open spec fn put_by_time(
    s: Seq<diagnostics::LogEntry<Seq<char>>>,
    e: diagnostics::LogEntry<Seq<char>>,
) -> Seq<diagnostics::LogEntry<Seq<char>>>
    decreases s.len(),
{
    if s.len() == 0 || !json::text_before(e.at, s.last().at) {
        s.push(e)
    } else {
        put_by_time(s.drop_last(), e).push(s.last())
    }
}

/// Entries in the order of their times; those of one time stay in their order.
pub open spec fn by_time(s: Seq<diagnostics::LogEntry<Seq<char>>>) -> Seq<
    diagnostics::LogEntry<Seq<char>>,
>
    decreases s.len(),
{
    if s.len() == 0 {
        Seq::empty()
    } else {
        put_by_time(by_time(s.drop_last()), s.last())
    }
}

/// The errors of some sessions, one session after the other.
pub open spec fn all_errors(s: Seq<SessionModel>) -> Seq<diagnostics::LogEntry<Seq<char>>>
    decreases s.len(),
{
    if s.len() == 0 {
        Seq::empty()
    } else {
        all_errors(s.drop_last()) + s.last().error_log
    }
}

/// The first entries of a list.
pub open spec fn at_most<A>(s: Seq<A>, n: int) -> Seq<A> {
    if s.len() <= n {
        s
    } else {
        s.take(n)
    }
}

proof fn lemma_put_by_time(
    s: Seq<diagnostics::LogEntry<Seq<char>>>,
    e: diagnostics::LogEntry<Seq<char>>,
)
    requires
        in_time_order(s),
    ensures
        in_time_order(put_by_time(s, e)),
        put_by_time(s, e).to_multiset() == s.to_multiset().insert(e),
        put_by_time(s, e).len() == s.len() + 1,
        s.len() > 0 && json::text_before(e.at, s.last().at) ==> put_by_time(s, e).last()
            == s.last(),
        s.len() == 0 || !json::text_before(e.at, s.last().at) ==> put_by_time(s, e).last() == e,
    decreases s.len(),
{
    broadcast use vstd::seq_lib::group_to_multiset_ensures;

    if s.len() == 0 || !json::text_before(e.at, s.last().at) {
        assert(put_by_time(s, e) == s.push(e));
        assert forall|i: int, j: int| 0 <= i < j < s.push(e).len() implies !json::text_before(
            (#[trigger] s.push(e)[j]).at,
            (#[trigger] s.push(e)[i]).at,
        ) by {
            if j == s.len() && i < s.len() - 1 {
                if json::text_before(e.at, s[i].at) {
                    json::lemma_text_order(s[i].at, s.last().at);
                    if json::text_before(s[i].at, s.last().at) {
                        json::lemma_text_before_trans(e.at, s[i].at, s.last().at);
                    }
                    assert(!json::text_before(s.last().at, s[i].at));
                }
            }
        }
    } else {
        let head = s.drop_last();
        let t = put_by_time(head, e);
        assert(in_time_order(head)) by {
            assert forall|i: int, j: int| 0 <= i < j < head.len() implies !json::text_before(
                (#[trigger] head[j]).at,
                (#[trigger] head[i]).at,
            ) by {
                assert(head[i] == s[i] && head[j] == s[j]);
            }
        }
        lemma_put_by_time(head, e);
        let u = t.push(s.last());
        assert(put_by_time(s, e) == u);
        assert(t.to_multiset() == head.to_multiset().insert(e));
        assert(head.push(s.last()) =~= s);
        assert(u.to_multiset() =~= s.to_multiset().insert(e));
        assert forall|i: int, j: int| 0 <= i < j < u.len() implies !json::text_before(
            (#[trigger] u[j]).at,
            (#[trigger] u[i]).at,
        ) by {
            if j == t.len() {
                let x = u[i];
                assert(t.contains(x)) by {
                    assert(t[i] == x);
                }
                assert(t.to_multiset().count(x) > 0);
                assert(x == e || head.to_multiset().count(x) > 0);
                if json::text_before(s.last().at, x.at) {
                    if x == e {
                        json::lemma_text_before_trans(e.at, s.last().at, e.at);
                        json::lemma_text_order(e.at, e.at);
                    } else {
                        assert(head.contains(x));
                        let k = choose|k: int| 0 <= k < head.len() && head[k] == x;
                        assert(s[k] == x);
                        assert(!json::text_before(s[s.len() - 1].at, s[k].at));
                    }
                }
            } else {
                assert(u[i] == t[i] && u[j] == t[j]);
            }
        }
    }
}

/// Whether no entry is earlier than one before it.
pub open spec fn in_time_order(s: Seq<diagnostics::LogEntry<Seq<char>>>) -> bool {
    forall|i: int, j: int|
        0 <= i < j < s.len() ==> !json::text_before((#[trigger] s[j]).at, (#[trigger] s[i]).at)
}

/// Putting entries in order loses none, adds none, and leaves none before an earlier one.
pub proof fn ordering_keeps_entries(s: Seq<diagnostics::LogEntry<Seq<char>>>)
    ensures
        in_time_order(by_time(s)),
        by_time(s).to_multiset() == s.to_multiset(),
        by_time(s).len() == s.len(),
    decreases s.len(),
{
    broadcast use vstd::seq_lib::group_to_multiset_ensures;

    if s.len() > 0 {
        ordering_keeps_entries(s.drop_last());
        lemma_put_by_time(by_time(s.drop_last()), s.last());
        assert(s.drop_last().push(s.last()) =~= s);
    } else {
        assert(by_time(s) =~= s);
    }
}

fn insert_by_time(v: &mut Vec<LogEntry>, e: LogEntry)
    ensures
        diagnostics::entries(final(v)@) == put_by_time(diagnostics::entries(old(v)@), e@),
{
    let ghost all = diagnostics::entries(v@);
    let n: usize = v.len();
    let mut i: usize = n;
    assert(all.take(n as int) =~= all);
    assert(all.skip(n as int) =~= Seq::<diagnostics::LogEntry<Seq<char>>>::empty());
    assert(put_by_time(all, e@) =~= put_by_time(all.take(n as int), e@) + all.skip(n as int));
    while i > 0 && text::comes_before(e.at.as_str(), v[i - 1].at.as_str())
        invariant
            i <= n,
            n == v@.len(),
            v@ == old(v)@,
            all == diagnostics::entries(v@),
            put_by_time(all, e@) == put_by_time(all.take(i as int), e@) + all.skip(i as int),
        decreases i,
    {
        proof {
            let t = all.take(i as int);
            assert(t.last() == v@[i - 1]@);
            assert(t.drop_last() =~= all.take(i - 1));
            assert(put_by_time(t, e@) == put_by_time(all.take(i - 1), e@).push(t.last()));
            assert(put_by_time(all.take(i - 1), e@).push(t.last()) + all.skip(i as int)
                =~= put_by_time(all.take(i - 1), e@) + all.skip(i - 1));
        }
        i = i - 1;
    }
    proof {
        let t = all.take(i as int);
        if i > 0 {
            assert(t.last() == v@[i - 1]@);
        }
        assert(put_by_time(t, e@) == t.push(e@));
    }
    v.insert(i, e);
    assert(diagnostics::entries(v@) =~= all.take(i as int).push(e@) + all.skip(i as int));
}

/// A session in a list: its name, its kind and its state.
pub struct SessionLine {
    pub id: Seq<char>,
    pub kind: DeviceKind,
    pub state: SessionStateView<Seq<char>>,
}

/// The line of a session.
pub open spec fn line_of(s: SessionModel) -> SessionLine {
    SessionLine { id: s.id, kind: s.kind, state: s.shown(None) }
}

/// The contents of a list of sessions.
pub open spec fn lines_view(v: Seq<(String, DeviceKind, SessionStateView)>) -> Seq<SessionLine> {
    Seq::new(v.len(), |i: int| SessionLine { id: v[i].0@, kind: v[i].1, state: v[i].2@ })
}

/// Puts a line behind all whose name is not after its own.
pub open spec fn put_by_name(s: Seq<SessionLine>, e: SessionLine) -> Seq<SessionLine>
    decreases s.len(),
{
    if s.len() == 0 || !json::text_before(e.id, s.last().id) {
        s.push(e)
    } else {
        put_by_name(s.drop_last(), e).push(s.last())
    }
}

/// The lines of some sessions, in the order of their names.
pub open spec fn by_name(s: Seq<SessionModel>) -> Seq<SessionLine>
    decreases s.len(),
{
    if s.len() == 0 {
        Seq::empty()
    } else {
        put_by_name(by_name(s.drop_last()), line_of(s.last()))
    }
}

/// Whether no name is before one that stands before it.
pub open spec fn in_name_order(s: Seq<SessionLine>) -> bool {
    forall|i: int, j: int|
        0 <= i < j < s.len() ==> !json::text_before((#[trigger] s[j]).id, (#[trigger] s[i]).id)
}

proof fn lemma_put_by_name(s: Seq<SessionLine>, e: SessionLine)
    requires
        in_name_order(s),
    ensures
        in_name_order(put_by_name(s, e)),
        put_by_name(s, e).to_multiset() == s.to_multiset().insert(e),
        put_by_name(s, e).len() == s.len() + 1,
    decreases s.len(),
{
    broadcast use vstd::seq_lib::group_to_multiset_ensures;

    if s.len() == 0 || !json::text_before(e.id, s.last().id) {
        assert(put_by_name(s, e) == s.push(e));
        assert forall|i: int, j: int| 0 <= i < j < s.push(e).len() implies !json::text_before(
            (#[trigger] s.push(e)[j]).id,
            (#[trigger] s.push(e)[i]).id,
        ) by {
            if j == s.len() && i < s.len() - 1 {
                if json::text_before(e.id, s[i].id) {
                    json::lemma_text_order(s[i].id, s.last().id);
                    if json::text_before(s[i].id, s.last().id) {
                        json::lemma_text_before_trans(e.id, s[i].id, s.last().id);
                    }
                    assert(!json::text_before(s.last().id, s[i].id));
                }
            }
        }
    } else {
        let head = s.drop_last();
        let t = put_by_name(head, e);
        assert(in_name_order(head)) by {
            assert forall|i: int, j: int| 0 <= i < j < head.len() implies !json::text_before(
                (#[trigger] head[j]).id,
                (#[trigger] head[i]).id,
            ) by {
                assert(head[i] == s[i] && head[j] == s[j]);
            }
        }
        lemma_put_by_name(head, e);
        let u = t.push(s.last());
        assert(put_by_name(s, e) == u);
        assert(head.push(s.last()) =~= s);
        assert(u.to_multiset() =~= s.to_multiset().insert(e));
        assert forall|i: int, j: int| 0 <= i < j < u.len() implies !json::text_before(
            (#[trigger] u[j]).id,
            (#[trigger] u[i]).id,
        ) by {
            if j == t.len() {
                let x = u[i];
                assert(t.contains(x)) by {
                    assert(t[i] == x);
                }
                assert(t.to_multiset().count(x) > 0);
                assert(x == e || head.to_multiset().count(x) > 0);
                if json::text_before(s.last().id, x.id) {
                    if x == e {
                        json::lemma_text_before_trans(e.id, s.last().id, e.id);
                        json::lemma_text_order(e.id, e.id);
                    } else {
                        assert(head.contains(x));
                        let k = choose|k: int| 0 <= k < head.len() && head[k] == x;
                        assert(s[k] == x);
                        assert(!json::text_before(s[s.len() - 1].id, s[k].id));
                    }
                }
            } else {
                assert(u[i] == t[i] && u[j] == t[j]);
            }
        }
    }
}

/// The list of the sessions holds each of them once, in the order of their names.
pub proof fn listing_keeps_sessions(s: Seq<SessionModel>)
    ensures
        in_name_order(by_name(s)),
        by_name(s).to_multiset() == s.map_values(|m: SessionModel| line_of(m)).to_multiset(),
        by_name(s).len() == s.len(),
    decreases s.len(),
{
    broadcast use vstd::seq_lib::group_to_multiset_ensures;

    let f = |m: SessionModel| line_of(m);
    if s.len() > 0 {
        listing_keeps_sessions(s.drop_last());
        lemma_put_by_name(by_name(s.drop_last()), line_of(s.last()));
        assert(s.map_values(f) =~= s.drop_last().map_values(f).push(line_of(s.last())));
    } else {
        assert(by_name(s) =~= s.map_values(f));
    }
}

fn insert_by_name(
    v: &mut Vec<(String, DeviceKind, SessionStateView)>,
    e: (String, DeviceKind, SessionStateView),
)
    ensures
        lines_view(final(v)@) == put_by_name(
            lines_view(old(v)@),
            SessionLine { id: e.0@, kind: e.1, state: e.2@ },
        ),
{
    let ghost all = lines_view(v@);
    let ghost x = SessionLine { id: e.0@, kind: e.1, state: e.2@ };
    let n: usize = v.len();
    let mut i: usize = n;
    assert(all.take(n as int) =~= all);
    assert(all.skip(n as int) =~= Seq::<SessionLine>::empty());
    assert(put_by_name(all, x) =~= put_by_name(all.take(n as int), x) + all.skip(n as int));
    while i > 0 && text::comes_before(e.0.as_str(), v[i - 1].0.as_str())
        invariant
            i <= n,
            n == v@.len(),
            v@ == old(v)@,
            all == lines_view(v@),
            x == (SessionLine { id: e.0@, kind: e.1, state: e.2@ }),
            put_by_name(all, x) == put_by_name(all.take(i as int), x) + all.skip(i as int),
        decreases i,
    {
        proof {
            let t = all.take(i as int);
            assert(t.last().id == v@[i - 1].0@);
            assert(t.drop_last() =~= all.take(i - 1));
            assert(put_by_name(t, x) == put_by_name(all.take(i - 1), x).push(t.last()));
            assert(put_by_name(all.take(i - 1), x).push(t.last()) + all.skip(i as int)
                =~= put_by_name(all.take(i - 1), x) + all.skip(i - 1));
        }
        i = i - 1;
    }
    proof {
        let t = all.take(i as int);
        if i > 0 {
            assert(t.last().id == v@[i - 1].0@);
        }
        assert(put_by_name(t, x) == t.push(x));
    }
    v.insert(i, e);
    assert(lines_view(v@) =~= all.take(i as int).push(x) + all.skip(i as int));
}

impl SessionRegistry {
    /// The sessions with their kinds and states, in the order of their names.
    pub fn list(&self) -> (r: Vec<(String, DeviceKind, SessionStateView)>)
        ensures
            lines_view(r@) == by_name(self@.sessions),
    {
        let ghost all = self@.sessions;
        let mut out: Vec<(String, DeviceKind, SessionStateView)> = Vec::new();
        let mut i: usize = 0;
        assert(lines_view(out@) =~= Seq::<SessionLine>::empty());
        assert(all.take(0) =~= Seq::<SessionModel>::empty());
        while i < self.sessions.len()
            invariant
                i <= self.sessions@.len(),
                all == session_models(self.sessions@),
                lines_view(out@) == by_name(all.take(i as int)),
            decreases self.sessions@.len() - i,
        {
            proof {
                assert(all.take(i + 1).drop_last() =~= all.take(i as int));
                assert(all.take(i + 1).last() == self.sessions@[i as int]@);
            }
            let s = &self.sessions[i];
            let line = (text::own(s.id.as_str()), s.kind, s.state_view());
            insert_by_name(&mut out, line);
            i = i + 1;
        }
        assert(all.take(i as int) =~= all);
        out
    }

    /// The log of the program and the errors of all sessions, in the order of their times; at
    /// most the first five hundred.
    pub fn aggregate_error_log(&self) -> (r: Vec<LogEntry>)
        ensures
            diagnostics::entries(r@) == at_most(
                by_time(self@.runtime_log + all_errors(self@.sessions)),
                RUNTIME_LOG_LIMIT as int,
            ),
    {
        let ghost head = self@.runtime_log;
        let ghost all = self@.sessions;
        let mut joined = diagnostics::copy_entries(&self.runtime_log);
        let mut i: usize = 0;
        assert(all.take(0) =~= Seq::<SessionModel>::empty());
        assert(head + all_errors(all.take(0)) =~= head);
        while i < self.sessions.len()
            invariant
                i <= self.sessions@.len(),
                all == session_models(self.sessions@),
                diagnostics::entries(joined@) == head + all_errors(all.take(i as int)),
            decreases self.sessions@.len() - i,
        {
            let mut errors = self.sessions[i].error_log();
            let ghost before = diagnostics::entries(joined@);
            let ghost more = diagnostics::entries(errors@);
            joined.append(&mut errors);
            proof {
                assert(diagnostics::entries(joined@) =~= before + more);
                assert(all.take(i + 1).drop_last() =~= all.take(i as int));
                assert(all.take(i + 1).last() == self.sessions@[i as int]@);
                assert(head + (all_errors(all.take(i as int)) + more) =~= before + more);
            }
            i = i + 1;
        }
        assert(all.take(i as int) =~= all);
        let ghost whole = diagnostics::entries(joined@);
        let mut sorted: Vec<LogEntry> = Vec::new();
        let mut k: usize = 0;
        assert(diagnostics::entries(sorted@) =~= by_time(whole.take(0)));
        while k < joined.len()
            invariant
                k <= joined@.len(),
                whole == diagnostics::entries(joined@),
                diagnostics::entries(sorted@) == by_time(whole.take(k as int)),
            decreases joined@.len() - k,
        {
            proof {
                assert(whole.take(k + 1).drop_last() =~= whole.take(k as int));
                assert(whole.take(k + 1).last() == joined@[k as int]@);
            }
            insert_by_time(&mut sorted, joined[k].clone());
            k = k + 1;
        }
        assert(whole.take(k as int) =~= whole);
        let ghost full = diagnostics::entries(sorted@);
        if sorted.len() > RUNTIME_LOG_LIMIT {
            sorted.truncate(RUNTIME_LOG_LIMIT);
            assert(diagnostics::entries(sorted@) =~= full.take(RUNTIME_LOG_LIMIT as int));
        }
        sorted
    }
}

// ---------------------------------------------------------------------------
// Laws
// ---------------------------------------------------------------------------

/// A device that is not in a session gets one of its own, behind all others and with its own
/// name, kind, port and preferences; the others stay as they are. A device that is in a session
/// gets no second one.
pub proof fn devices_get_one_session_each(
    m: RegistryModel,
    kind: DeviceKind,
    id: Seq<char>,
    prefs: Option<SessionPreferences>,
    failure: Option<AdapterError<Seq<char>>>,
    at: Seq<char>,
)
    ensures
        ({
            let n = m.after_start(kind, id, prefs, failure, at);
            &&& m.has(id) ==> n == m
            &&& !m.has(id) ==> {
                let s = n.sessions.last();
                &&& n.sessions.len() == m.sessions.len() + 1
                &&& n.sessions.drop_last() == m.sessions
                &&& s.id == id && s.kind == kind && s.uxplay_port == m.next_port
                &&& prefs matches Some(p) ==> s.prefs == p
                &&& failure is None ==> s.state is Mirroring
                &&& failure is Some ==> s.state is Failed
                &&& n.resources == m.resources && n.runtime_log == m.runtime_log
            }
        }),
{
    let n = m.after_start(kind, id, prefs, failure, at);
    if !m.has(id) {
        assert(n.sessions.drop_last() =~= m.sessions);
    }
}

/// Input goes to the first session that came to a picture or to an end, until another one is
/// chosen: a start whose checks passed makes nothing active yet, and whatever comes later leaves
/// the active session alone. A change is told once.
pub proof fn the_first_session_becomes_active(
    m: RegistryModel,
    kind: DeviceKind,
    id: Seq<char>,
    prefs: Option<SessionPreferences>,
    failure: Option<AdapterError<Seq<char>>>,
    at: Seq<char>,
)
    ensures
        ({
            let n = m.after_start(kind, id, prefs, failure, at);
            if m.active is None && !m.has(id) && failure is Some {
                n.active == Some(id) && n.outbox == m.outbox.push(Notice::Active(Some(id)))
            } else {
                n.active == m.active && n.outbox == m.outbox
            }
        }),
        ({
            let n = m.after_launch(id);
            &&& n.sessions == m.sessions && n.next_port == m.next_port && n.runtime_log
                == m.runtime_log && n.resources == m.resources
            &&& if m.active is None && m.has(id) {
                n.active == Some(id) && n.outbox == m.outbox.push(Notice::Active(Some(id)))
            } else {
                n == m
            }
        }),
{
}

/// A session that ends leaves the others as they are, in their order. Where input went to it,
/// input goes to the one that is there longest, and this is told; where it did not, nothing
/// about it changes.
pub proof fn input_goes_on_to_the_oldest_session(m: RegistryModel, i: int)
    requires
        m.wf(),
        0 <= i < m.sessions.len(),
    ensures
        ({
            let id = m.sessions[i].id;
            let n = m.after_stop(id);
            &&& n.sessions == m.sessions.take(i) + m.sessions.skip(i + 1)
            &&& n.next_port == m.next_port && n.runtime_log == m.runtime_log
            &&& m.active != Some(id) ==> n.active == m.active && n.outbox == m.outbox
            &&& m.active == Some(id) ==> n.outbox == m.outbox.push(Notice::Active(n.active))
            &&& m.active == Some(id) && m.sessions.len() == 1 ==> n.active is None
            &&& m.active == Some(id) && m.sessions.len() > 1 ==> n.active == Some(
                m.sessions[if i == 0 {
                    1
                } else {
                    0
                }].id,
            )
        }),
{
    let id = m.sessions[i].id;
    assert(m.has(id));
    lemma_place(m, id);
    assert(m.place(id) == i);
    assert(m.sessions.remove(i) =~= m.sessions.take(i) + m.sessions.skip(i + 1));
}

/// The session with a name is the one that has it, and changing it changes no other.
pub proof fn names_lead_to_their_sessions(m: RegistryModel, i: int, s: SessionModel)
    requires
        m.wf(),
        0 <= i < m.sessions.len(),
    ensures
        m.session(m.sessions[i].id) == m.sessions[i],
        m.with_session(m.sessions[i].id, s).sessions == m.sessions.update(i, s),
        m.with_session(m.sessions[i].id, s).active == m.active,
        m.with_session(m.sessions[i].id, s).outbox == m.outbox,
        m.with_session(m.sessions[i].id, s).runtime_log == m.runtime_log,
        m.with_session(m.sessions[i].id, s).next_port == m.next_port,
{
    let id = m.sessions[i].id;
    assert(m.has(id));
    lemma_place(m, id);
    assert(m.place(id) == i);
}

/// A name that is taken is refused as busy, one that nobody has as a failure; both name it.
pub proof fn refusals_name_the_session(m: RegistryModel, id: Seq<char>)
    ensures
        m.taken(id) is Busy,
        m.unknown(id) is Failed,
        exists|k: int|
            0 <= k <= k + id.len() <= m.taken(id).message_text().len()
                && #[trigger] m.taken(id).message_text().subrange(k, k + id.len()) == id,
        m.unknown(id).message_text().skip(m.unknown(id).message_text().len() - id.len()) == id,
{
    let a = m.taken(id).message_text();
    let b = m.unknown(id).message_text();
    let k = (a.len() - id.len() - " 已在会话中"@.len()) as int;
    reveal_strlit(" 已在会话中");
    assert(a.subrange(k, k + id.len()) =~= id);
    assert(b.skip(b.len() - id.len()) =~= id);
}

/// What is kept of a log is its end: nothing is lost while there is room, and the oldest go
/// first.
pub proof fn the_oldest_entries_go_first<A>(s: Seq<A>, max: nat)
    ensures
        newest(s, max).len() <= max,
        newest(s, max).len() == max || newest(s, max).len() == s.len(),
        forall|k: int|
            0 < k <= newest(s, max).len() ==> #[trigger] newest(s, max)[newest(s, max).len() - k]
                == s[s.len() - k],
{
}

/// What is shown of a list is its beginning: nothing is left out while there is room.
pub proof fn lists_are_shown_from_their_beginning<A>(s: Seq<A>, n: int)
    requires
        0 <= n,
    ensures
        at_most(s, n).len() <= n,
        at_most(s, n).len() == n || at_most(s, n).len() == s.len(),
        at_most(s, n).is_prefix_of(s),
{
}

/// The errors of sessions are those of each of them, one after the other.
pub proof fn errors_of_all_sessions_are_shown(s: Seq<SessionModel>, t: Seq<SessionModel>)
    ensures
        all_errors(s + t) == all_errors(s) + all_errors(t),
        s.len() == 1 ==> all_errors(s) == s[0].error_log,
    decreases t.len(),
{
    reveal_with_fuel(all_errors, 2);
    if t.len() == 0 {
        assert(s + t =~= s);
        assert(all_errors(s) + all_errors(t) =~= all_errors(s));
    } else {
        errors_of_all_sessions_are_shown(s, t.drop_last());
        assert((s + t).drop_last() =~= s + t.drop_last());
        assert((s + t).last() == t.last());
        assert(all_errors(s + t) =~= all_errors(s) + all_errors(t));
    }
    if s.len() == 1 {
        assert(s.drop_last().len() == 0);
        assert(all_errors(s) =~= s[0].error_log);
    }
}

/// The entries of one time.
pub open spec fn of_time(at: Seq<char>) -> spec_fn(diagnostics::LogEntry<Seq<char>>) -> bool {
    |e: diagnostics::LogEntry<Seq<char>>| e.at == at
}

/// Entries of one time stay in the order in which they came.
pub proof fn entries_of_one_time_stay_in_order(
    s: Seq<diagnostics::LogEntry<Seq<char>>>,
    at: Seq<char>,
)
    ensures
        by_time(s).filter(of_time(at)) == s.filter(of_time(at)),
    decreases s.len(),
{
    if s.len() > 0 {
        entries_of_one_time_stay_in_order(s.drop_last(), at);
        lemma_put_in_its_time(by_time(s.drop_last()), s.last(), at);
        lemma_filter_last(s, of_time(at));
        let t = by_time(s.drop_last());
        lemma_filter_last(t.push(s.last()), of_time(at));
        assert(t.push(s.last()).drop_last() =~= t);
    } else {
        assert(by_time(s) =~= s);
    }
}

proof fn lemma_filter_last<A>(s: Seq<A>, f: spec_fn(A) -> bool)
    requires
        s.len() > 0,
    ensures
        s.filter(f) == (if f(s.last()) {
            s.drop_last().filter(f).push(s.last())
        } else {
            s.drop_last().filter(f)
        }),
{
    reveal(Seq::filter);
}

proof fn lemma_put_in_its_time(
    s: Seq<diagnostics::LogEntry<Seq<char>>>,
    e: diagnostics::LogEntry<Seq<char>>,
    at: Seq<char>,
)
    ensures
        put_by_time(s, e).filter(of_time(at)) == s.push(e).filter(of_time(at)),
    decreases s.len(),
{
    let f = of_time(at);
    if s.len() > 0 && json::text_before(e.at, s.last().at) {
        let d = s.drop_last();
        lemma_put_in_its_time(d, e, at);
        let p = put_by_time(d, e);
        lemma_filter_last(p.push(s.last()), f);
        assert(p.push(s.last()).drop_last() =~= p);
        lemma_filter_last(d.push(e), f);
        assert(d.push(e).drop_last() =~= d);
        lemma_filter_last(s.push(e), f);
        assert(s.push(e).drop_last() =~= s);
        lemma_filter_last(s, f);
        json::lemma_text_order(e.at, s.last().at);
        assert(e.at != s.last().at);
    }
}

/// What is told about a session is told under its name, in order; which session is active is
/// told of none.
pub proof fn notices_are_told_under_their_session(id: Seq<char>, v: Seq<Notice<Seq<char>>>, i: int)
    requires
        0 <= i < v.len(),
    ensures
        about(id, v).len() == v.len(),
        about(id, v)[i].1 == v[i],
        v[i] is Active ==> about(id, v)[i].0.len() == 0,
        !(v[i] is Active) ==> about(id, v)[i].0 == id,
{
}

/// A failure is shown with its own code and its own text, and as grave as it is said to be.
pub proof fn failures_are_shown_as_they_are(e: AdapterError<Seq<char>>, recoverable: bool)
    ensures
        session_error(e, recoverable).recoverable == recoverable,
        e matches AdapterError::Busy(s) ==> session_error(e, recoverable).code == "session_busy"@,
        e matches AdapterError::Failed(s) ==> session_error(e, recoverable).code
            == "adapter_failed"@,
        e.message_text() == session_error(e, recoverable).message,
{
}

/// Where nothing is chosen, control starts by itself and over Bluetooth, the shortcut for
/// pasting works, and as much may be pasted as 32 kibibytes hold.
pub proof fn nothing_chosen_means_the_usual(
    id: Seq<char>,
    kind: DeviceKind,
    port: u16,
    failure: Option<AdapterError<Seq<char>>>,
    at: Seq<char>,
)
    ensures
        ({
            let p = device::fresh(id, kind, port, at).after_start(None, failure, at).prefs;
            &&& p.auto_control && p.paste_shortcut_enabled && !p.ios_usb_control_enabled
            &&& p.max_paste_bytes == 32 * 1024
            &&& p.scroll_step == 80
        }),
{
}

} // verus!
