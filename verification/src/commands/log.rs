//! The log of the program.
use vstd::prelude::*;

use crate::integrations::diagnostics;
use crate::integrations::diagnostics::LogEntry;
use crate::session::manager;
use crate::session::manager::SessionRegistry;
use crate::text;

verus! {

/// How many characters are kept of what the window reports.
pub const FRONTEND_MESSAGE_LIMIT: usize = 500;

/// The log of the program and the errors of all sessions.
pub fn get_app_logs(reg: &SessionRegistry) -> (r: Vec<LogEntry>)
    ensures
        diagnostics::entries(r@) == manager::at_most(
            manager::by_time(reg@.runtime_log + manager::all_errors(reg@.sessions)),
            manager::RUNTIME_LOG_LIMIT as int,
        ),
{
    reg.aggregate_error_log()
}

/// What is noted of an error in the window.
pub open spec fn frontend_entry(message: Seq<char>, at: Seq<char>) -> LogEntry<Seq<char>> {
    LogEntry {
        at,
        level: "warn"@,
        code: "frontend_error"@,
        message: text::first_chars(message, FRONTEND_MESSAGE_LIMIT as int),
    }
}

/// Notes an error in the window.
pub fn report_frontend_error(reg: &mut SessionRegistry, message: &str, at: &str)
    ensures
        final(reg)@ == old(reg)@.after_frontend_log(frontend_entry(message@, at@)),
{
    let entry = LogEntry {
        at: text::own(at),
        level: text::own("warn"),
        code: text::own("frontend_error"),
        message: text::take_chars(message, FRONTEND_MESSAGE_LIMIT),
    };
    reg.record_frontend_log(entry);
}

/// An error in the window is a warning of its own kind; of a long one the beginning is kept.
pub proof fn window_errors_are_warnings(message: Seq<char>, at: Seq<char>)
    ensures
        frontend_entry(message, at).at == at,
        frontend_entry(message, at).level == "warn"@,
        frontend_entry(message, at).code == "frontend_error"@,
        message.len() <= 500 ==> frontend_entry(message, at).message == message,
        message.len() > 500 ==> frontend_entry(message, at).message == message.take(500),
{
}

} // verus!
