//! Pasting the text of the clipboard.
use vstd::prelude::*;

use crate::integrations::clipboard_adapter;
use crate::integrations::clipboard_adapter::PasteResult;
use crate::session::device::SessionModel;
use crate::session::device_input;
use crate::session::manager;
use crate::session::manager::SessionRegistry;
use crate::text;

verus! {

/// How much text may be pasted.
#[derive(Debug)]
pub struct PastePrefs {
    pub max_paste_bytes: usize,
}

#[derive(Debug)]
pub struct PasteOptions {
    pub prefs: Option<PastePrefs>,
}

/// How much text may be pasted, where the window says so.
pub open spec fn wanted_limit(options: PasteOptions) -> Option<usize> {
    match options.prefs {
        Some(p) => Some(p.max_paste_bytes),
        None => None,
    }
}

/// How much text may be pasted into a session.
pub open spec fn limit_of(options: PasteOptions, s: SessionModel) -> usize {
    match wanted_limit(options) {
        Some(m) => m,
        None => s.prefs.max_paste_bytes,
    }
}

/// Begins to paste into a session: how many bytes may be pasted and which paste this is, or how
/// the request is answered where nothing is pasted.
pub fn paste_plain_text(reg: &mut SessionRegistry, id: &str, options: PasteOptions, at: &str) -> (r:
    Result<(usize, u64), PasteResult>)
    requires
        old(reg)@.wf(),
    ensures
        final(reg)@.wf(),
        ({
            let before = old(reg)@;
            let s = before.session(id@);
            match r {
                Ok((max, token)) => before.has(id@) && s.state is ControlReady && final(reg)@
                    == before && token == s.paste_token && max == limit_of(options, s),
                Err(p) => if before.has(id@) {
                    !(s.state is ControlReady) && p@ == clipboard_adapter::refused(
                        "control_inactive"@,
                        "控制未连接，无法粘贴"@,
                    ) && final(reg)@ == before.with_session(
                        id@,
                        device_input::after_paste(s, p@, at@),
                    )
                } else {
                    final(reg)@ == before && p@ == clipboard_adapter::refused(
                        "no_session"@,
                        "会话不存在"@,
                    )
                },
            }
        }),
{
    let max = match options.prefs {
        Some(p) => Some(p.max_paste_bytes),
        None => None,
    };
    match reg.index_of(id) {
        None => Err(PasteResult::rejected("no_session", "会话不存在")),
        Some(i) => {
            let ghost before = reg@;
            let r = reg.sessions[i].begin_paste(max, at);
            proof {
                manager::lemma_one_changed(before, id@, reg.sessions@);
                assert(before.sessions.update(i as int, before.sessions[i as int])
                    =~= before.sessions);
            }
            r
        },
    }
}

/// How a paste is answered that broke off.
pub fn paste_task_failed(error: &str) -> (r: PasteResult)
    ensures
        r@ == clipboard_adapter::refused("paste_task_failed"@, "粘贴任务失败："@ + error@),
{
    PasteResult::rejected("paste_task_failed", text::cat2("粘贴任务失败：", error).as_str())
}

/// What the window says goes before what was chosen for the session.
pub proof fn the_limit_of_the_window_comes_first(options: PasteOptions, s: SessionModel)
    ensures
        options.prefs matches Some(p) ==> limit_of(options, s) == p.max_paste_bytes,
        options.prefs is None ==> limit_of(options, s) == s.prefs.max_paste_bytes,
{
}

} // verus!
