use vstd::prelude::*;

use crate::config::HEALTH_TIMEOUT_SECS;
use crate::launcher::{health_timeout_ms, Project, Service};
use crate::text::{dec, decimal, IntErrorKind};

verus! {

impl IntErrorKind {
    pub open spec fn spec_description(self) -> Seq<char> {
        match self {
            IntErrorKind::Empty => "cannot parse integer from empty string"@,
            IntErrorKind::InvalidDigit => "invalid digit found in string"@,
            IntErrorKind::PosOverflow => "number too large to fit in target type"@,
        }
    }

    /// The text with which std describes this kind of `ParseIntError`.
    pub fn description(&self) -> (r: &'static str)
        ensures
            r@ == self.spec_description(),
    {
        match self {
            IntErrorKind::Empty => "cannot parse integer from empty string",
            IntErrorKind::InvalidDigit => "invalid digit found in string",
            IntErrorKind::PosOverflow => "number too large to fit in target type",
        }
    }
}

/// Why launching, or serving the frontend, failed.
#[derive(Debug)]
pub enum LaunchError {
    /// `--serve-frontend` was given fewer than two operands.
    Usage,
    /// The port operand of `--serve-frontend` is not a `u16`.
    InvalidFrontendPort { given: String, kind: IntErrorKind },
    /// A path that must exist does not.
    NotFound { message: String, path: String },
    /// The build output is missing and npm cannot be found.
    NpmUnavailable(Project),
    /// A build ran and the build output is still missing.
    BuildOutputMissing(Project),
    /// Neither the bundled node nor one on the PATH was found.
    NodeNotFound,
    /// The localserver script does not exist.
    ScriptNotFound { path: String },
    /// Neither the bundled python nor one on the PATH was found.
    PythonNotFound,
    /// The service did not answer in time.
    StartTimeout(Service),
    /// Outside work failed; the text says how.
    Io(String),
}

/// What is reported when `name` did not answer within `timeout_ms` milliseconds: the
/// timeout in whole seconds, as `Duration::as_secs` gives them.
pub open spec fn timeout_text(name: Seq<char>, timeout_ms: u64) -> Seq<char> {
    name + " start timeout ("@ + dec((timeout_ms / 1000) as nat) + "s)"@
}

/// What is reported when `name` did not answer within `timeout_ms` milliseconds.
pub fn timeout_message(name: &str, timeout_ms: u64) -> (r: String)
    ensures
        r@ == timeout_text(name@, timeout_ms),
{
    let mut r = String::from_str(name);
    r.append(" start timeout (");
    let secs = decimal(timeout_ms / 1000);
    r.append(secs.as_str());
    r.append("s)");
    r
}

impl LaunchError {
    /// The text of the error, as the launcher prints it.
    pub open spec fn spec_message(&self) -> Seq<char> {
        match self {
            LaunchError::Usage => "usage: --serve-frontend <dist_dir> <port>"@,
            LaunchError::InvalidFrontendPort { given, kind } => "invalid frontend port: "@ + given@
                + ": "@ + kind.spec_description(),
            LaunchError::NotFound { message, path } => message@ + ": "@ + path@,
            LaunchError::NpmUnavailable(p) => p.spec_npm_unavailable(),
            LaunchError::BuildOutputMissing(p) => p.spec_output_still_missing(),
            LaunchError::NodeNotFound => "Node runtime not found. Installer should include runtime\\bin\\node.exe, or install Node.js."@,
            LaunchError::ScriptNotFound { path } => "localserver script not found at "@ + path@,
            LaunchError::PythonNotFound => "python runtime not found (expected runtime/bin/python/python.exe or system PATH)"@,
            LaunchError::StartTimeout(s) => timeout_text(s.spec_name(), (HEALTH_TIMEOUT_SECS * 1000) as u64),
            LaunchError::Io(m) => m@,
        }
    }

    /// The text of the error, as the launcher prints it.
    pub fn message(&self) -> (r: String)
        ensures
            r@ == self.spec_message(),
    {
        match self {
            LaunchError::Usage => String::from_str("usage: --serve-frontend <dist_dir> <port>"),
            LaunchError::InvalidFrontendPort { given, kind } => {
                let mut r = String::from_str("invalid frontend port: ");
                r.append(given.as_str());
                r.append(": ");
                r.append(kind.description());
                r
            },
            LaunchError::NotFound { message, path } => {
                let mut r = message.clone();
                r.append(": ");
                r.append(path.as_str());
                r
            },
            LaunchError::NpmUnavailable(p) => String::from_str(p.npm_unavailable()),
            LaunchError::BuildOutputMissing(p) => String::from_str(p.output_still_missing()),
            LaunchError::NodeNotFound => String::from_str(
                "Node runtime not found. Installer should include runtime\\bin\\node.exe, or install Node.js.",
            ),
            LaunchError::ScriptNotFound { path } => {
                let mut r = String::from_str("localserver script not found at ");
                r.append(path.as_str());
                r
            },
            LaunchError::PythonNotFound => String::from_str(
                "python runtime not found (expected runtime/bin/python/python.exe or system PATH)",
            ),
            LaunchError::StartTimeout(s) => timeout_message(s.name(), health_timeout_ms()),
            LaunchError::Io(m) => m.clone(),
        }
    }
}

} // verus!
verus! {

/// A `LaunchError` with its texts taken as character sequences.
pub ghost enum ErrorView {
    Usage,
    InvalidFrontendPort { given: Seq<char>, kind: IntErrorKind },
    NotFound { message: Seq<char>, path: Seq<char> },
    NpmUnavailable(Project),
    BuildOutputMissing(Project),
    NodeNotFound,
    ScriptNotFound { path: Seq<char> },
    PythonNotFound,
    StartTimeout(Service),
    Io(Seq<char>),
}

impl View for LaunchError {
    type V = ErrorView;

    open spec fn view(&self) -> ErrorView {
        match self {
            LaunchError::Usage => ErrorView::Usage,
            LaunchError::InvalidFrontendPort { given, kind } => ErrorView::InvalidFrontendPort { given: given@, kind: *kind },
            LaunchError::NotFound { message, path } => ErrorView::NotFound { message: message@, path: path@ },
            LaunchError::NpmUnavailable(p) => ErrorView::NpmUnavailable(*p),
            LaunchError::BuildOutputMissing(p) => ErrorView::BuildOutputMissing(*p),
            LaunchError::NodeNotFound => ErrorView::NodeNotFound,
            LaunchError::ScriptNotFound { path } => ErrorView::ScriptNotFound { path: path@ },
            LaunchError::PythonNotFound => ErrorView::PythonNotFound,
            LaunchError::StartTimeout(s) => ErrorView::StartTimeout(*s),
            LaunchError::Io(m) => ErrorView::Io(m@),
        }
    }
}

} // verus!
