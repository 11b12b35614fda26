//! Sessions: listing, starting, ending and activating them, and their control.
use vstd::prelude::*;

use crate::commands;
use crate::commands::{no_session, CmdResult, CommandErrorPayload};
use crate::integrations::hid_adapter;
use crate::integrations::hid_adapter::HidStatus;
use crate::integrations::AdapterError;
use crate::seqs;
use crate::session::device;
use crate::session::device::{DeviceKind, ReleaseWork};
use crate::session::device_control::ControlPlan;
use crate::session::manager;
use crate::session::manager::{
    RegistryModel,
    SessionLine,
    SessionPreferences,
    SessionRegistry,
    SessionStateView,
};
use crate::session::state::SessionEvent;
use crate::text;

verus! {

/// What a session is started with.
pub struct StartSessionRequest {
    /// `iphone` or `android`.
    pub kind: String,
    /// The kind and the name of the device, with a colon between them.
    pub id: String,
    pub prefs: Option<SessionPreferences>,
}

/// A session as it is listed. The type of the texts is a parameter, so that contracts can speak
/// of `SessionInfo<Seq<char>>`.
#[derive(Debug)]
pub struct SessionInfo<T = String> {
    pub id: T,
    pub kind: T,
    pub active: bool,
    pub state: SessionStateView<T>,
    pub hid: HidStatus<T>,
    pub mirror_size: Option<(u32, u32)>,
}

impl View for SessionInfo<String> {
    type V = SessionInfo<Seq<char>>;

    open spec fn view(&self) -> SessionInfo<Seq<char>> {
        SessionInfo {
            id: self.id@,
            kind: self.kind@,
            active: self.active,
            state: self.state@,
            hid: self.hid@,
            mirror_size: self.mirror_size,
        }
    }
}

/// The contents of a list of sessions.
pub open spec fn infos(v: Seq<SessionInfo>) -> Seq<SessionInfo<Seq<char>>> {
    Seq::new(v.len(), |i: int| v[i]@)
}

/// The contents of a list of statuses, each with the name of its session.
pub open spec fn statuses(v: Seq<(String, HidStatus)>) -> Seq<(Seq<char>, HidStatus<Seq<char>>)> {
    Seq::new(v.len(), |i: int| (v[i].0@, v[i].1@))
}

pub open spec fn of_session(id: Seq<char>) -> spec_fn((Seq<char>, HidStatus<Seq<char>>)) -> bool {
    |p: (Seq<char>, HidStatus<Seq<char>>)| p.0 == id
}

/// The status of the Bluetooth controller of a session: the first under its name.
pub open spec fn controller_of(
    v: Seq<(Seq<char>, HidStatus<Seq<char>>)>,
    id: Seq<char>,
) -> HidStatus<Seq<char>> {
    let i = seqs::first_from(v, of_session(id), 0);
    if 0 <= i < v.len() {
        v[i].1
    } else {
        hid_adapter::no_link()
    }
}

fn find_controller(v: &Vec<(String, HidStatus)>, id: &str) -> (r: HidStatus)
    ensures
        r@ == controller_of(statuses(v@), id@),
{
    let ghost all = statuses(v@);
    let ghost f = of_session(id@);
    let mut i: usize = 0;
    while i < v.len()
        invariant
            i <= v@.len(),
            all == statuses(v@),
            f == of_session(id@),
            forall|j: int| 0 <= j < i ==> !f(#[trigger] all[j]),
        decreases v@.len() - i,
    {
        assert(all[i as int] == (v@[i as int].0@, v@[i as int].1@));
        if text::same(v[i].0.as_str(), id) {
            proof {
                seqs::lemma_first_from_is(all, f, 0, i as int);
            }
            return v[i].1.clone();
        }
        i = i + 1;
    }
    proof {
        seqs::lemma_first_from_is(all, f, 0, i as int);
    }
    HidStatus::default()
}

/// A session as it is listed.
pub open spec fn info_of(
    m: RegistryModel,
    line: SessionLine,
    controllers: Seq<(Seq<char>, HidStatus<Seq<char>>)>,
) -> SessionInfo<Seq<char>> {
    let s = m.session(line.id);
    SessionInfo {
        id: line.id,
        kind: line.kind.text(),
        active: m.active == Some(line.id),
        state: line.state,
        hid: if m.has(line.id) {
            s.link_status(controller_of(controllers, line.id))
        } else {
            hid_adapter::no_link()
        },
        mirror_size: if m.has(line.id) {
            s.last_metadata
        } else {
            None
        },
    }
}

/// The sessions, in the order of their names; `controllers` holds the statuses of the Bluetooth
/// controllers, each with the name of its session.
pub fn list_sessions(reg: &SessionRegistry, controllers: &Vec<(String, HidStatus)>) -> (r: Vec<
    SessionInfo,
>)
    ensures
        infos(r@) == manager::by_name(reg@.sessions).map_values(
            |line: SessionLine| info_of(reg@, line, statuses(controllers@)),
        ),
{
    let active = reg.active();
    let lines = reg.list();
    let ghost all = manager::lines_view(lines@);
    let ghost known = statuses(controllers@);
    let mut out: Vec<SessionInfo> = Vec::new();
    let mut i: usize = 0;
    while i < lines.len()
        invariant
            i <= lines@.len(),
            all == manager::lines_view(lines@),
            known == statuses(controllers@),
            text::opt_text(active) == reg@.active,
            out@.len() == i,
            forall|j: int| 0 <= j < i ==> #[trigger] out@[j]@ == info_of(reg@, all[j], known),
        decreases lines@.len() - i,
    {
        let id = lines[i].0.as_str();
        assert(all[i as int] == (SessionLine {
            id: lines@[i as int].0@,
            kind: lines@[i as int].1,
            state: lines@[i as int].2@,
        }));
        let is_active = match &active {
            Some(a) => text::same(a.as_str(), id),
            None => false,
        };
        let (hid, mirror_size) = match reg.get(id) {
            Some(s) => (s.hid_status(find_controller(controllers, id)), s.mirror_metadata()),
            None => (HidStatus::default(), None),
        };
        let info = SessionInfo {
            id: text::own(id),
            kind: text::own(lines[i].1.as_str()),
            active: is_active,
            state: lines[i].2.clone(),
            hid,
            mirror_size,
        };
        out.push(info);
        i = i + 1;
    }
    assert(infos(out@) =~= all.map_values(
        |line: SessionLine| info_of(reg@, line, statuses(controllers@)),
    ));
    out
}

/// Starts the session of a device; `checks` is what came of the checks. A device of another
/// kind is refused.
pub fn start_session(
    reg: &mut SessionRegistry,
    request: StartSessionRequest,
    checks: Result<(), AdapterError>,
    at: &str,
) -> (r: CmdResult<()>)
    requires
        old(reg)@.wf(),
    ensures
        final(reg)@.wf(),
        match device::kind_of(request.kind@) {
            Some(kind) => {
                &&& final(reg)@ == old(reg)@.after_start(
                    kind,
                    request.id@,
                    request.prefs,
                    device::step_failure(checks),
                    at@,
                )
                &&& commands::passes_on(
                    r,
                    if old(reg)@.has(request.id@) {
                        Some(old(reg)@.taken(request.id@))
                    } else {
                        device::step_failure(checks)
                    },
                )
            },
            None => {
                &&& final(reg)@ == old(reg)@
                &&& r matches Err(e) && e@ == (CommandErrorPayload {
                    code: "invalid_kind"@,
                    message: "未知设备类型"@,
                })
            },
        },
{
    match DeviceKind::from_str(request.kind.as_str()) {
        None => Err(CommandErrorPayload::new("invalid_kind", "未知设备类型")),
        Some(kind) => match reg.start_session(kind, request.id, request.prefs, checks, at) {
            Ok(()) => Ok(()),
            Err(e) => Err(CommandErrorPayload::from_adapter(&e)),
        },
    }
}

/// Makes a session the active one; says what is to be released on the one before.
pub fn activate_device(reg: &mut SessionRegistry, id: &str) -> (r: CmdResult<ReleaseWork>)
    requires
        old(reg)@.wf(),
    ensures
        final(reg)@.wf(),
        final(reg)@ == old(reg)@.after_activate(id@),
        r matches Ok(work) ==> work == old(reg)@.activation_work(id@),
        commands::passes_on(
            r,
            if old(reg)@.has(id@) {
                None
            } else {
                Some(old(reg)@.unknown(id@))
            },
        ),
{
    match reg.activate(id) {
        Ok(work) => Ok(work),
        Err(e) => Err(CommandErrorPayload::from_adapter(&e)),
    }
}

/// Begins to start the control of a session; says how it is started.
pub fn start_control(
    reg: &mut SessionRegistry,
    id: &str,
    prefs: SessionPreferences,
    at: &str,
) -> (r: CmdResult<ControlPlan>)
    requires
        old(reg)@.wf(),
    ensures
        final(reg)@.wf(),
        ({
            let before = old(reg)@;
            let s = before.session(id@);
            &&& final(reg)@ == before.with_session(
                id@,
                s.with_prefs(Some(prefs)).after_enable(at@),
            )
            &&& match r {
                Ok(plan) => before.has(id@) && s.control_obstacle() is None && plan
                    == s.with_prefs(Some(prefs)).control_plan(),
                Err(e) => if before.has(id@) {
                    s.control_obstacle() matches Some(x) && e@ == commands::answer_to(x)
                } else {
                    e@ == commands::session_missing()
                },
            }
        }),
{
    match reg.index_of(id) {
        None => Err(no_session()),
        Some(i) => {
            let ghost before = reg@;
            let r = reg.sessions[i].start_control(Some(prefs), at);
            proof {
                manager::lemma_one_changed(before, id@, reg.sessions@);
            }
            match r {
                Ok(plan) => Ok(plan),
                Err(e) => Err(CommandErrorPayload::from_adapter(&e)),
            }
        },
    }
}

/// Ends the control of a session; says what is to be released, and how the request is answered.
pub fn stop_control(reg: &mut SessionRegistry, id: &str, at: &str) -> (r: (
    ReleaseWork,
    CmdResult<()>,
))
    requires
        old(reg)@.wf(),
    ensures
        final(reg)@.wf(),
        ({
            let before = old(reg)@;
            let s = before.session(id@);
            if before.has(id@) {
                &&& final(reg)@ == before.with_session(id@, s.after_stop_control(at@))
                &&& r.0 == s.release_work()
                &&& commands::passes_on(
                    r.1,
                    if s.in_control() && !s.takes(SessionEvent::BleDisconnected) {
                        Some(s.refusal(SessionEvent::BleDisconnected))
                    } else {
                        None
                    },
                )
            } else {
                &&& final(reg)@ == before
                &&& r.0 == ReleaseWork::Nothing
                &&& r.1 matches Err(e) && e@ == commands::session_missing()
            }
        }),
{
    match reg.index_of(id) {
        None => (ReleaseWork::Nothing, Err(no_session())),
        Some(i) => {
            let ghost before = reg@;
            let (work, r) = reg.sessions[i].stop_control(at);
            proof {
                manager::lemma_one_changed(before, id@, reg.sessions@);
            }
            (
                work,
                match r {
                    Ok(()) => Ok(()),
                    Err(e) => Err(CommandErrorPayload::from_adapter(&e)),
                },
            )
        },
    }
}

/// Releases everything that is pressed in a session; of one that is not there, nothing.
pub fn release_all_input(reg: &mut SessionRegistry, id: &str) -> (r: ReleaseWork)
    requires
        old(reg)@.wf(),
    ensures
        final(reg)@.wf(),
        final(reg)@ == old(reg)@.with_session(id@, old(reg)@.session(id@).after_release()),
        r == (if old(reg)@.has(id@) {
            old(reg)@.session(id@).release_work()
        } else {
            ReleaseWork::Nothing
        }),
{
    match reg.index_of(id) {
        None => ReleaseWork::Nothing,
        Some(i) => {
            let ghost before = reg@;
            let work = reg.sessions[i].release_all_input();
            proof {
                manager::lemma_one_changed(before, id@, reg.sessions@);
            }
            work
        },
    }
}

/// Work that is done beside the window.
#[derive(Debug, Clone, Copy, PartialEq, Eq, Structural)]
pub enum SessionTask {
    StopSession,
    StopAll,
    StartControl,
    StopControl,
    ReleaseInput,
}

/// The answer where work broke off.
pub open spec fn broken_off(task: SessionTask, error: Seq<char>) -> CommandErrorPayload<Seq<char>> {
    match task {
        SessionTask::StopSession => CommandErrorPayload {
            code: "stop_session"@,
            message: "停止投屏任务失败："@ + error,
        },
        SessionTask::StopAll => CommandErrorPayload {
            code: "stop_all"@,
            message: "停止投屏任务失败："@ + error,
        },
        SessionTask::StartControl => CommandErrorPayload {
            code: "start_control"@,
            message: "启动控制任务失败："@ + error,
        },
        SessionTask::StopControl => CommandErrorPayload {
            code: "stop_control"@,
            message: "停止控制任务失败："@ + error,
        },
        SessionTask::ReleaseInput => CommandErrorPayload {
            code: "release_all_input"@,
            message: "释放输入任务失败："@ + error,
        },
    }
}

/// Answers a request where the work for it broke off.
pub fn task_failed(task: SessionTask, error: &str) -> (r: CommandErrorPayload)
    ensures
        r@ == broken_off(task, error@),
{
    let (code, before) = match task {
        SessionTask::StopSession => ("stop_session", "停止投屏任务失败："),
        SessionTask::StopAll => ("stop_all", "停止投屏任务失败："),
        SessionTask::StartControl => ("start_control", "启动控制任务失败："),
        SessionTask::StopControl => ("stop_control", "停止控制任务失败："),
        SessionTask::ReleaseInput => ("release_all_input", "释放输入任务失败："),
    };
    CommandErrorPayload::new(code, text::cat2(before, error).as_str())
}

/// A session is listed as what it is, and as the active one where it is.
pub proof fn sessions_are_listed_as_they_are(
    m: RegistryModel,
    i: int,
    controllers: Seq<(Seq<char>, HidStatus<Seq<char>>)>,
)
    requires
        m.wf(),
        0 <= i < m.sessions.len(),
    ensures
        ({
            let s = m.sessions[i];
            let info = info_of(m, manager::line_of(s), controllers);
            &&& info.id == s.id
            &&& info.kind == "iphone"@ <==> s.kind is Iphone
            &&& info.kind == "android"@ <==> s.kind is Android
            &&& info.active <==> m.active == Some(s.id)
            &&& info.state.state == s.state && info.state.since == s.since
            &&& info.mirror_size == s.last_metadata
            &&& info.hid == s.link_status(controller_of(controllers, s.id))
        }),
{
    reveal_strlit("iphone");
    reveal_strlit("android");
    assert("iphone"@.len() != "android"@.len());
    manager::names_lead_to_their_sessions(m, i, m.sessions[i]);
    assert(m.has(m.sessions[i].id));
}

/// No two sessions are listed as the active one.
pub proof fn one_session_is_listed_as_active(
    m: RegistryModel,
    i: int,
    j: int,
    controllers: Seq<(Seq<char>, HidStatus<Seq<char>>)>,
)
    requires
        m.wf(),
        0 <= i < j < m.sessions.len(),
    ensures
        !(info_of(m, manager::line_of(m.sessions[i]), controllers).active && info_of(
            m,
            manager::line_of(m.sessions[j]),
            controllers,
        ).active),
{
}

/// The controller of a session is the first under its name; one that has none has no link.
pub proof fn controllers_are_found_by_their_session(
    v: Seq<(Seq<char>, HidStatus<Seq<char>>)>,
    id: Seq<char>,
    i: int,
)
    ensures
        0 <= i < v.len() && v[i].0 == id && (forall|j: int| 0 <= j < i ==> (#[trigger] v[j]).0 != id)
            ==> controller_of(v, id) == v[i].1,
        (forall|j: int| 0 <= j < v.len() ==> (#[trigger] v[j]).0 != id) ==> controller_of(v, id)
            == hid_adapter::no_link(),
{
    let f = of_session(id);
    if 0 <= i < v.len() && v[i].0 == id && (forall|j: int|
        0 <= j < i ==> (#[trigger] v[j]).0 != id) {
        seqs::lemma_first_from_is(v, f, 0, i);
    }
    if forall|j: int| 0 <= j < v.len() ==> (#[trigger] v[j]).0 != id {
        seqs::lemma_first_from_is(v, f, 0, v.len() as int);
    }
}

/// Work that broke off is answered with its own code and with what went wrong.
pub proof fn work_that_broke_off_says_which(task: SessionTask, error: Seq<char>)
    ensures
        broken_off(task, error).code == "stop_session"@ <==> task is StopSession,
        broken_off(task, error).code == "stop_all"@ <==> task is StopAll,
        broken_off(task, error).code == "start_control"@ <==> task is StartControl,
        broken_off(task, error).code == "stop_control"@ <==> task is StopControl,
        broken_off(task, error).code == "release_all_input"@ <==> task is ReleaseInput,
        broken_off(task, error).message.skip(
            broken_off(task, error).message.len() - error.len(),
        ) == error,
{
    reveal_strlit("stop_session");
    reveal_strlit("stop_all");
    reveal_strlit("start_control");
    reveal_strlit("stop_control");
    reveal_strlit("release_all_input");
    assert("stop_session"@.len() == 12 && "stop_all"@.len() == 8 && "start_control"@.len() == 13
        && "stop_control"@.len() == 12 && "release_all_input"@.len() == 17);
    assert("stop_session"@[5] == 's' && "stop_control"@[5] == 'c');
    let m = broken_off(task, error).message;
    assert(m.skip(m.len() - error.len()) =~= error);
}

} // verus!
