//! How the log is set up: which events pass the filter and where they are
//! written.
use vstd::prelude::*;
use vstd::string::StringExecFns;

verus! {

/// The name under which the daemon's own events are logged.
pub const CRATE_NAME: &'static str = "amd";

/// The file that the log is written to.
pub const LOG_FILE: &'static str = "amd.log";

/// What the log is set up with.
#[derive(Debug, PartialEq, Eq)]
pub struct TracingSetup {
    /// The directive that the filter is built from.
    pub directive: String,
    /// Whether events are written to the standard output as well as to the
    /// log file.
    pub stdout: bool,
}

/// Whether the daemon runs in production.
pub open spec fn is_production(env: Seq<char>) -> bool {
    env == "production"@
}

/// The directive of the filter. In production events pass from level
/// `info`, elsewhere from level `trace`; with `enable_libraries` the level
/// holds for every crate, without it for the daemon's own events alone.
pub open spec fn filter_directive(env: Seq<char>, enable_libraries: bool) -> Seq<char> {
    let level = if is_production(env) {
        "info"@
    } else {
        "trace"@
    };
    if enable_libraries {
        level
    } else {
        CRATE_NAME@ + "="@ + level
    }
}

/// Decides how the log is set up where the daemon runs as `env` says.
/// Outside production the events go to the standard output too.
pub fn setup_tracing(env: &str, enable_libraries: bool) -> (setup: TracingSetup)
    ensures
        setup.directive@ == filter_directive(env@, enable_libraries),
        setup.stdout == !is_production(env@),
{
    let production = String::from_str(env) == String::from_str("production");
    let level = if production {
        "info"
    } else {
        "trace"
    };
    let directive = if enable_libraries {
        String::from_str(level)
    } else {
        let mut text = String::from_str(CRATE_NAME);
        text.append("=");
        text.append(level);
        text
    };
    TracingSetup { directive, stdout: !production }
}

} // verus!
