//! The overview of the environment, shown and exported.
use vstd::prelude::*;

use crate::commands::CommandErrorPayload;
use crate::integrations::diagnostics;
use crate::integrations::diagnostics::{collect_diagnostics, DiagnosticsReport, EnvironmentProbes};
use crate::integrations::AdapterError;
use crate::session::manager;
use crate::session::manager::{SessionRegistry, FIRST_PORT};
use crate::text;

verus! {

/// How a request to export the overview is answered.
#[derive(Debug)]
pub struct ExportResult {
    pub ok: bool,
    pub path: Option<String>,
    pub items: Vec<String>,
    pub error: Option<String>,
}

/// What the window of the program is allowed to do.
pub open spec fn granted() -> Seq<Seq<char>> {
    seq!["core:default"@, "dialog:default"@, "shell:allow-execute(binaries/uxplay)"@]
}

/// The overview of the environment, with the errors of all sessions.
pub fn get_diagnostics(reg: &SessionRegistry, probes: EnvironmentProbes) -> (r: DiagnosticsReport)
    ensures
        diagnostics::shows(
            r,
            probes,
            manager::at_most(
                manager::by_time(reg@.runtime_log + manager::all_errors(reg@.sessions)),
                manager::RUNTIME_LOG_LIMIT as int,
            ),
        ),
        r.mirror.port == FIRST_PORT,
        text::texts(r.security.capabilities@) == granted(),
{
    let names = ["core:default", "dialog:default", "shell:allow-execute(binaries/uxplay)"];
    let capabilities = text::own_all(&names);
    assert(text::texts(capabilities@) =~= granted());
    let log = reg.aggregate_error_log();
    collect_diagnostics(probes, &log, FIRST_PORT, capabilities)
}

/// Answers a request to export the overview; `outcome` is what came of it.
pub fn export_diagnostics(outcome: Result<(String, Vec<String>), AdapterError>) -> (r: ExportResult)
    ensures
        match outcome {
            Ok((path, items)) => r == (ExportResult {
                ok: true,
                path: Some(path),
                items,
                error: None,
            }),
            Err(e) => !r.ok && r.path is None && r.items@.len() == 0 && text::opt_text(r.error)
                == Some(e@.message_text()),
        },
{
    match outcome {
        Ok((path, items)) => ExportResult { ok: true, path: Some(path), items, error: None },
        Err(e) => ExportResult {
            ok: false,
            path: None,
            items: Vec::new(),
            error: Some(e.message()),
        },
    }
}

/// The answer where the directory for the data of the program is not known.
pub fn no_data_dir(error: &str) -> (r: CommandErrorPayload)
    ensures
        r@ == (CommandErrorPayload { code: "app_data_dir"@, message: error@ }),
{
    CommandErrorPayload::new("app_data_dir", error)
}

} // verus!
