//! What the window of the program can ask for, and how it is answered.
//!
//! Failures are answered with a code and a text; no error of the system reaches the window as
//! it is.
use vstd::prelude::*;

use crate::integrations;
use crate::integrations::AdapterError;
use crate::text;

pub mod capabilities;
pub mod clipboard;
pub mod diagnostics;
pub mod frame;
pub mod hid;
pub mod log;
pub mod mirror;
pub mod session;
pub mod usb;
pub mod windows;

verus! {

/// How a failure is answered. The type of the texts is a parameter, so that contracts can speak
/// of `CommandErrorPayload<Seq<char>>`.
#[derive(Debug)]
pub struct CommandErrorPayload<T = String> {
    pub code: T,
    pub message: T,
}

impl View for CommandErrorPayload<String> {
    type V = CommandErrorPayload<Seq<char>>;

    open spec fn view(&self) -> CommandErrorPayload<Seq<char>> {
        CommandErrorPayload { code: self.code@, message: self.message@ }
    }
}

pub type CmdResult<T> = Result<T, CommandErrorPayload>;

/// The answer to a failure of an adapter.
pub open spec fn answer_to(e: AdapterError<Seq<char>>) -> CommandErrorPayload<Seq<char>> {
    CommandErrorPayload { code: e.code_text(), message: e.message_text() }
}

impl CommandErrorPayload {
    pub fn new(code: &str, message: &str) -> (r: Self)
        ensures
            r@ == (CommandErrorPayload { code: code@, message: message@ }),
    {
        CommandErrorPayload { code: text::own(code), message: text::own(message) }
    }

    /// Answers a failure of an adapter.
    pub fn from_adapter(e: &AdapterError) -> (r: Self)
        ensures
            r@ == answer_to(e@),
    {
        CommandErrorPayload { code: text::own(e.code()), message: e.message() }
    }
}

/// The answer where a session is asked for that is not there.
pub open spec fn session_missing() -> CommandErrorPayload<Seq<char>> {
    CommandErrorPayload { code: "no_session"@, message: "会话不存在"@ }
}

pub(crate) fn no_session() -> (r: CommandErrorPayload)
    ensures
        r@ == session_missing(),
{
    CommandErrorPayload::new("no_session", "会话不存在")
}

/// Whether an answer is the one to what an adapter reports.
pub open spec fn passes_on<T>(r: CmdResult<T>, e: Option<AdapterError<Seq<char>>>) -> bool {
    match r {
        Ok(_) => e is None,
        Err(p) => e matches Some(e) && p@ == answer_to(e),
    }
}

/// A failure is answered by its code and its text, each in its place.
pub proof fn answers_hold_code_and_text(e: AdapterError<Seq<char>>)
    ensures
        answer_to(e).code == e.code_text(),
        answer_to(e).message == e.message_text(),
        e is Busy <==> answer_to(e).code == "session_busy"@,
        e is Failed <==> answer_to(e).code == "adapter_failed"@,
        e is ControlInactive <==> answer_to(e).code == "control_inactive"@,
{
    integrations::codes_name_their_failure(e);
}

} // verus!
