//! Records the wizard's frontend receives (field names become camelCase in
//! the JSON the app layer sends).

use vstd::prelude::*;

use crate::strings::push_str;
use vstd::string::StringExecFns;

verus! {

/// Which pane the frontend opens with.
pub struct AppState {
    /// `"setup"` or `"config"`.
    pub mode: String,
    pub installed: bool,
}

/// One preflight check.
pub struct Check {
    pub id: String,
    pub label: String,
    pub ok: bool,
    pub detail: String,
    /// A failing fatal check blocks proceeding.
    pub fatal: bool,
}

/// The result of all preflight checks.
pub struct Preflight {
    pub can_proceed: bool,
    pub checks: Vec<Check>,
}

/// The verdict on a Windows ISO the user picked.
pub struct IsoInfo {
    pub ok: bool,
    pub edition: String,
    pub arch: String,
    pub build: String,
    pub detail: String,
}

/// One progress update of the install pipeline.
pub struct Progress {
    pub step: String,
    pub label: String,
    pub step_index: usize,
    pub step_count: usize,
    pub pct: u32,
    /// `"running"`, `"done"` or `"error"`.
    pub status: String,
    pub log: String,
}

/// The pane for an installation state: the configuration pane once Windows
/// is installed, the setup wizard before.
pub fn get_state(installed: bool) -> (s: AppState)
    ensures
        s.installed == installed,
        s.mode@ == (if installed {
            "config"@
        } else {
            "setup"@
        }),
{
    AppState {
        mode: if installed {
            String::from_str("config")
        } else {
            String::from_str("setup")
        },
        installed,
    }
}

/// A string holding `t`.
pub fn owned(t: &str) -> (s: String)
    ensures
        s@ == t@,
{
    let mut s = String::new();
    push_str(&mut s, t);
    s
}

} // verus!
