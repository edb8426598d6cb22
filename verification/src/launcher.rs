use vstd::prelude::*;

use crate::commands::{ensure_file, ensure_path};
use crate::error::{ErrorView, LaunchError};

verus! {

/// The two projects that the launcher runs.
#[derive(Debug, Clone, Copy, PartialEq, Eq, Structural)]
pub enum Project {
    Tapnow,
    Jimeng,
}

/// The three services that the launcher brings up.
#[derive(Debug, Clone, Copy, PartialEq, Eq, Structural)]
pub enum Service {
    Api,
    Localserver,
    Frontend,
}

impl Service {
    pub open spec fn spec_name(self) -> Seq<char> {
        match self {
            Service::Api => "Jimeng API"@,
            Service::Localserver => "Tapnow localserver"@,
            Service::Frontend => "Tapnow frontend"@,
        }
    }

    /// The name under which progress and timeouts of the service are reported.
    pub fn name(&self) -> (r: &'static str)
        ensures
            r@ == self.spec_name(),
    {
        match self {
            Service::Api => "Jimeng API",
            Service::Localserver => "Tapnow localserver",
            Service::Frontend => "Tapnow frontend",
        }
    }
}

impl Service {
    pub open spec fn spec_log_file(self) -> Seq<char> {
        match self {
            Service::Api => "jimeng-api.log"@,
            Service::Localserver => "tapnow-localserver.log"@,
            Service::Frontend => "tapnow-web.log"@,
        }
    }

    /// The file, in the log directory, that receives the service's output.
    pub fn log_file(&self) -> (r: &'static str)
        ensures
            r@ == self.spec_log_file(),
    {
        match self {
            Service::Api => "jimeng-api.log",
            Service::Localserver => "tapnow-localserver.log",
            Service::Frontend => "tapnow-web.log",
        }
    }
}

impl Project {
    pub open spec fn spec_dir_missing(self) -> Seq<char> {
        match self {
            Project::Tapnow => "Tapnow Studio directory not found"@,
            Project::Jimeng => "jimeng-api directory not found"@,
        }
    }

    /// What is reported when the project's directory does not exist.
    pub fn dir_missing(&self) -> (r: &'static str)
        ensures
            r@ == self.spec_dir_missing(),
    {
        match self {
            Project::Tapnow => "Tapnow Studio directory not found",
            Project::Jimeng => "jimeng-api directory not found",
        }
    }

    pub open spec fn spec_package_missing(self) -> Seq<char> {
        match self {
            Project::Tapnow => "Tapnow Studio package.json not found"@,
            Project::Jimeng => "jimeng-api package.json not found"@,
        }
    }

    /// What is reported when the project has no `package.json`.
    pub fn package_missing(&self) -> (r: &'static str)
        ensures
            r@ == self.spec_package_missing(),
    {
        match self {
            Project::Tapnow => "Tapnow Studio package.json not found",
            Project::Jimeng => "jimeng-api package.json not found",
        }
    }

    pub open spec fn spec_npm_unavailable(self) -> Seq<char> {
        match self {
            Project::Tapnow => "Tapnow dist/index.html missing and npm is unavailable. Rebuild setup package on builder machine."@,
            Project::Jimeng => "jimeng-api dist/index.js missing and npm is unavailable. Rebuild setup package on builder machine."@,
        }
    }

    /// What is reported when the build output is missing and npm cannot be found.
    pub fn npm_unavailable(&self) -> (r: &'static str)
        ensures
            r@ == self.spec_npm_unavailable(),
    {
        match self {
            Project::Tapnow => "Tapnow dist/index.html missing and npm is unavailable. Rebuild setup package on builder machine.",
            Project::Jimeng => "jimeng-api dist/index.js missing and npm is unavailable. Rebuild setup package on builder machine.",
        }
    }

    pub open spec fn spec_output_still_missing(self) -> Seq<char> {
        match self {
            Project::Tapnow => "frontend build completed but dist/index.html is still missing"@,
            Project::Jimeng => "jimeng-api build completed but dist/index.js is still missing"@,
        }
    }

    /// What is reported when a build ran but left no build output.
    pub fn output_still_missing(&self) -> (r: &'static str)
        ensures
            r@ == self.spec_output_still_missing(),
    {
        match self {
            Project::Tapnow => "frontend build completed but dist/index.html is still missing",
            Project::Jimeng => "jimeng-api build completed but dist/index.js is still missing",
        }
    }
}

} // verus!

verus! {

/// The paths that the launcher checks and reports, as displayed.
pub struct LaunchPaths {
    pub tapnow_dir: String,
    pub jimeng_dir: String,
    pub tapnow_package: String,
    pub jimeng_package: String,
    pub localserver_script: String,
}

pub ghost struct PathsView {
    pub tapnow_dir: Seq<char>,
    pub jimeng_dir: Seq<char>,
    pub tapnow_package: Seq<char>,
    pub jimeng_package: Seq<char>,
    pub localserver_script: Seq<char>,
}

impl View for LaunchPaths {
    type V = PathsView;

    open spec fn view(&self) -> PathsView {
        PathsView {
            tapnow_dir: self.tapnow_dir@,
            jimeng_dir: self.jimeng_dir@,
            tapnow_package: self.tapnow_package@,
            jimeng_package: self.jimeng_package@,
            localserver_script: self.localserver_script@,
        }
    }
}

impl PathsView {
    pub open spec fn dir(self, p: Project) -> Seq<char> {
        match p {
            Project::Tapnow => self.tapnow_dir,
            Project::Jimeng => self.jimeng_dir,
        }
    }

    pub open spec fn package(self, p: Project) -> Seq<char> {
        match p {
            Project::Tapnow => self.tapnow_package,
            Project::Jimeng => self.jimeng_package,
        }
    }
}

/// Where a launch stands: the outside work whose outcome it waits for.
#[derive(Debug, Clone, Copy, PartialEq, Eq, Structural)]
pub enum Stage {
    LogDir,
    Dir(Project),
    Package(Project),
    OutputCheck(Project),
    FindNpm(Project),
    Build(Project),
    OutputRecheck(Project),
    FindNode,
    ApiProbe,
    ApiStart,
    ApiWait,
    LocalserverDisabled,
    LocalserverProbe,
    LocalserverScript,
    LocalserverPython,
    LocalserverStart,
    LocalserverWait,
    LocalserverWarned,
    FrontendProbe,
    FrontendStart,
    FrontendWait,
    Browser,
    Done,
    Failed,
}

/// What came of the outside work that an `Action` asked for.
#[derive(Debug)]
pub enum Outcome {
    /// The check holds, or the work succeeded.
    Yes,
    /// The check does not hold, or the service did not answer in time.
    No,
    /// The command looked for was found.
    Found(String),
    /// The work failed; the text says how.
    Failed(String),
}

pub ghost enum OutcomeView {
    Yes,
    No,
    Found(Seq<char>),
    Failed(Seq<char>),
}

impl View for Outcome {
    type V = OutcomeView;

    open spec fn view(&self) -> OutcomeView {
        match self {
            Outcome::Yes => OutcomeView::Yes,
            Outcome::No => OutcomeView::No,
            Outcome::Found(s) => OutcomeView::Found(s@),
            Outcome::Failed(s) => OutcomeView::Failed(s@),
        }
    }
}

/// The outside work that the launcher asks for next.
#[derive(Debug)]
pub enum Action {
    /// Create the log directory.
    CreateLogDir,
    /// Test that the project's directory exists.
    CheckDir(Project),
    /// Test that the project's `package.json` is a file.
    CheckPackage(Project),
    /// Test that the project's build output is a file.
    CheckBuildOutput(Project),
    /// Look for npm on the PATH.
    FindNpm(Project),
    /// Build the project with this npm.
    Build { project: Project, npm: String },
    /// Look for node, bundled or on the PATH.
    FindNode,
    /// Ask whether the service already answers.
    Probe(Service),
    /// Start jimeng-api with this node.
    StartApi { node: String },
    /// Test that the localserver script is a file.
    CheckScript,
    /// Look for python, bundled or on the PATH.
    FindPython,
    /// Start the localserver script with this python.
    StartLocalserver { python: String },
    /// Start the launcher itself as the frontend server.
    StartFrontend,
    /// Wait until the service answers, for at most the health timeout.
    Wait(Service),
    /// Report that the localserver is not started by configuration.
    NoteLocalserverDisabled,
    /// Report a failure that does not stop the launch.
    Warn(LaunchError),
    /// Open the frontend in a browser window.
    OpenBrowser,
    /// The launch succeeded.
    Finish,
    /// The launch failed.
    Abort(LaunchError),
    /// Nothing is left to do.
    Idle,
}

pub ghost enum ActionView {
    CreateLogDir,
    CheckDir(Project),
    CheckPackage(Project),
    CheckBuildOutput(Project),
    FindNpm(Project),
    Build { project: Project, npm: Seq<char> },
    FindNode,
    Probe(Service),
    StartApi { node: Seq<char> },
    CheckScript,
    FindPython,
    StartLocalserver { python: Seq<char> },
    StartFrontend,
    Wait(Service),
    NoteLocalserverDisabled,
    Warn(ErrorView),
    OpenBrowser,
    Finish,
    Abort(ErrorView),
    Idle,
}

impl View for Action {
    type V = ActionView;

    open spec fn view(&self) -> ActionView {
        match self {
            Action::CreateLogDir => ActionView::CreateLogDir,
            Action::CheckDir(p) => ActionView::CheckDir(*p),
            Action::CheckPackage(p) => ActionView::CheckPackage(*p),
            Action::CheckBuildOutput(p) => ActionView::CheckBuildOutput(*p),
            Action::FindNpm(p) => ActionView::FindNpm(*p),
            Action::Build { project, npm } => ActionView::Build { project: *project, npm: npm@ },
            Action::FindNode => ActionView::FindNode,
            Action::Probe(s) => ActionView::Probe(*s),
            Action::StartApi { node } => ActionView::StartApi { node: node@ },
            Action::CheckScript => ActionView::CheckScript,
            Action::FindPython => ActionView::FindPython,
            Action::StartLocalserver { python } => ActionView::StartLocalserver { python: python@ },
            Action::StartFrontend => ActionView::StartFrontend,
            Action::Wait(s) => ActionView::Wait(*s),
            Action::NoteLocalserverDisabled => ActionView::NoteLocalserverDisabled,
            Action::Warn(e) => ActionView::Warn(e@),
            Action::OpenBrowser => ActionView::OpenBrowser,
            Action::Finish => ActionView::Finish,
            Action::Abort(e) => ActionView::Abort(e@),
            Action::Idle => ActionView::Idle,
        }
    }
}

/// A launch in progress.
pub struct Launcher {
    pub stage: Stage,
    pub paths: LaunchPaths,
    pub localserver_enabled: bool,
    /// The node found for jimeng-api (empty until found).
    pub node: String,
}

pub ghost struct LauncherView {
    pub stage: Stage,
    pub paths: PathsView,
    pub localserver_enabled: bool,
    pub node: Seq<char>,
}

impl View for Launcher {
    type V = LauncherView;

    open spec fn view(&self) -> LauncherView {
        LauncherView {
            stage: self.stage,
            paths: self.paths@,
            localserver_enabled: self.localserver_enabled,
            node: self.node@,
        }
    }
}

pub open spec fn succeeded(o: OutcomeView) -> bool {
    o is Yes || o is Found
}

/// The text of a failed outcome (empty for any other).
pub open spec fn failure_text(o: OutcomeView) -> Seq<char> {
    match o {
        OutcomeView::Failed(m) => m,
        _ => Seq::<char>::empty(),
    }
}

pub open spec fn at(l: LauncherView, s: Stage) -> LauncherView {
    LauncherView { stage: s, ..l }
}

/// Where the launch goes once the project's build output is there.
pub open spec fn after_output(p: Project) -> (Stage, ActionView) {
    match p {
        Project::Tapnow => (Stage::OutputCheck(Project::Jimeng), ActionView::CheckBuildOutput(Project::Jimeng)),
        Project::Jimeng => (Stage::FindNode, ActionView::FindNode),
    }
}

/// Where the launch goes once jimeng-api answers.
pub open spec fn after_api(enabled: bool) -> (Stage, ActionView) {
    if enabled {
        (Stage::LocalserverProbe, ActionView::Probe(Service::Localserver))
    } else {
        (Stage::LocalserverDisabled, ActionView::NoteLocalserverDisabled)
    }
}

pub open spec fn go(l: LauncherView, next: (Stage, ActionView)) -> (LauncherView, ActionView) {
    (at(l, next.0), next.1)
}

pub open spec fn fail(l: LauncherView, e: ErrorView) -> (LauncherView, ActionView) {
    (at(l, Stage::Failed), ActionView::Abort(e))
}

pub open spec fn warn(l: LauncherView, e: ErrorView) -> (LauncherView, ActionView) {
    (at(l, Stage::LocalserverWarned), ActionView::Warn(e))
}

pub open spec fn to_frontend(l: LauncherView) -> (LauncherView, ActionView) {
    (at(l, Stage::FrontendProbe), ActionView::Probe(Service::Frontend))
}

/// The launch's first stage and first action.
pub open spec fn first_step(paths: PathsView, enabled: bool) -> (LauncherView, ActionView) {
    (LauncherView { stage: Stage::LogDir, paths, localserver_enabled: enabled, node: Seq::<char>::empty() }, ActionView::CreateLogDir)
}

/// Where the launch goes from `l` when the outside work it asked for had outcome `o`,
/// and the work it asks for next.
pub open spec fn next(l: LauncherView, o: OutcomeView) -> (LauncherView, ActionView) {
    let ok = succeeded(o);
    match l.stage {
        Stage::LogDir => if ok {
            go(l, (Stage::Dir(Project::Tapnow), ActionView::CheckDir(Project::Tapnow)))
        } else {
            fail(l, ErrorView::Io(failure_text(o)))
        },
        Stage::Dir(p) => if !ok {
            fail(l, ErrorView::NotFound { message: p.spec_dir_missing(), path: l.paths.dir(p) })
        } else if p == Project::Tapnow {
            go(l, (Stage::Dir(Project::Jimeng), ActionView::CheckDir(Project::Jimeng)))
        } else {
            go(l, (Stage::Package(Project::Tapnow), ActionView::CheckPackage(Project::Tapnow)))
        },
        Stage::Package(p) => if !ok {
            fail(l, ErrorView::NotFound { message: p.spec_package_missing(), path: l.paths.package(p) })
        } else if p == Project::Tapnow {
            go(l, (Stage::Package(Project::Jimeng), ActionView::CheckPackage(Project::Jimeng)))
        } else {
            go(l, (Stage::OutputCheck(Project::Tapnow), ActionView::CheckBuildOutput(Project::Tapnow)))
        },
        Stage::OutputCheck(p) => if ok {
            go(l, after_output(p))
        } else {
            go(l, (Stage::FindNpm(p), ActionView::FindNpm(p)))
        },
        Stage::FindNpm(p) => match o {
            OutcomeView::Found(npm) => go(l, (Stage::Build(p), ActionView::Build { project: p, npm })),
            _ => fail(l, ErrorView::NpmUnavailable(p)),
        },
        Stage::Build(p) => if ok {
            go(l, (Stage::OutputRecheck(p), ActionView::CheckBuildOutput(p)))
        } else {
            fail(l, ErrorView::Io(failure_text(o)))
        },
        Stage::OutputRecheck(p) => if ok {
            go(l, after_output(p))
        } else {
            fail(l, ErrorView::BuildOutputMissing(p))
        },
        Stage::FindNode => match o {
            OutcomeView::Found(node) => (
                LauncherView { stage: Stage::ApiProbe, node, ..l },
                ActionView::Probe(Service::Api),
            ),
            _ => fail(l, ErrorView::NodeNotFound),
        },
        Stage::ApiProbe => if ok {
            go(l, after_api(l.localserver_enabled))
        } else {
            go(l, (Stage::ApiStart, ActionView::StartApi { node: l.node }))
        },
        Stage::ApiStart => if ok {
            go(l, (Stage::ApiWait, ActionView::Wait(Service::Api)))
        } else {
            fail(l, ErrorView::Io(failure_text(o)))
        },
        Stage::ApiWait => if ok {
            go(l, after_api(l.localserver_enabled))
        } else {
            fail(l, ErrorView::StartTimeout(Service::Api))
        },
        Stage::LocalserverDisabled => to_frontend(l),
        Stage::LocalserverProbe => if ok {
            to_frontend(l)
        } else {
            go(l, (Stage::LocalserverScript, ActionView::CheckScript))
        },
        Stage::LocalserverScript => if ok {
            go(l, (Stage::LocalserverPython, ActionView::FindPython))
        } else {
            warn(l, ErrorView::ScriptNotFound { path: l.paths.localserver_script })
        },
        Stage::LocalserverPython => match o {
            OutcomeView::Found(python) => go(l, (Stage::LocalserverStart, ActionView::StartLocalserver { python })),
            _ => warn(l, ErrorView::PythonNotFound),
        },
        Stage::LocalserverStart => if ok {
            go(l, (Stage::LocalserverWait, ActionView::Wait(Service::Localserver)))
        } else {
            warn(l, ErrorView::Io(failure_text(o)))
        },
        Stage::LocalserverWait => if ok {
            to_frontend(l)
        } else {
            warn(l, ErrorView::StartTimeout(Service::Localserver))
        },
        Stage::LocalserverWarned => to_frontend(l),
        Stage::FrontendProbe => if ok {
            go(l, (Stage::Browser, ActionView::OpenBrowser))
        } else {
            go(l, (Stage::FrontendStart, ActionView::StartFrontend))
        },
        Stage::FrontendStart => if ok {
            go(l, (Stage::FrontendWait, ActionView::Wait(Service::Frontend)))
        } else {
            fail(l, ErrorView::Io(failure_text(o)))
        },
        Stage::FrontendWait => if ok {
            go(l, (Stage::Browser, ActionView::OpenBrowser))
        } else {
            fail(l, ErrorView::StartTimeout(Service::Frontend))
        },
        Stage::Browser => if ok {
            go(l, (Stage::Done, ActionView::Finish))
        } else {
            fail(l, ErrorView::Io(failure_text(o)))
        },
        Stage::Done => (l, ActionView::Idle),
        Stage::Failed => (l, ActionView::Idle),
    }
}

} // verus!
verus! {

fn outcome_text(o: Outcome) -> (r: String)
    ensures
        r@ == failure_text(o@),
{
    match o {
        Outcome::Failed(m) => m,
        _ => String::new(),
    }
}

impl Launcher {
    /// Begins a launch that checks and reports `paths`, and starts the localserver only
    /// where `localserver_enabled`.
    pub fn start(paths: LaunchPaths, localserver_enabled: bool) -> (r: (Launcher, Action))
        ensures
            (r.0@, r.1@) == first_step(paths@, localserver_enabled),
    {
        (Launcher { stage: Stage::LogDir, paths, localserver_enabled, node: String::new() }, Action::CreateLogDir)
    }

    fn to(&mut self, s: Stage)
        ensures
            final(self)@ == at(old(self)@, s),
    {
        self.stage = s;
    }

    fn fail_with(&mut self, e: LaunchError) -> (r: Action)
        ensures
            (final(self)@, r@) == fail(old(self)@, e@),
    {
        self.stage = Stage::Failed;
        Action::Abort(e)
    }

    fn warn_with(&mut self, e: LaunchError) -> (r: Action)
        ensures
            (final(self)@, r@) == warn(old(self)@, e@),
    {
        self.stage = Stage::LocalserverWarned;
        Action::Warn(e)
    }

    fn dir_path(&self, p: Project) -> (r: &String)
        ensures
            r@ == self.paths@.dir(p),
    {
        match p {
            Project::Tapnow => &self.paths.tapnow_dir,
            Project::Jimeng => &self.paths.jimeng_dir,
        }
    }

    fn package_path(&self, p: Project) -> (r: &String)
        ensures
            r@ == self.paths@.package(p),
    {
        match p {
            Project::Tapnow => &self.paths.tapnow_package,
            Project::Jimeng => &self.paths.jimeng_package,
        }
    }

    fn go_after_output(&mut self, p: Project) -> (r: Action)
        ensures
            (final(self)@, r@) == go(old(self)@, after_output(p)),
    {
        match p {
            Project::Tapnow => {
                self.stage = Stage::OutputCheck(Project::Jimeng);
                Action::CheckBuildOutput(Project::Jimeng)
            },
            Project::Jimeng => {
                self.stage = Stage::FindNode;
                Action::FindNode
            },
        }
    }

    fn go_after_api(&mut self) -> (r: Action)
        ensures
            (final(self)@, r@) == go(old(self)@, after_api(old(self)@.localserver_enabled)),
    {
        if self.localserver_enabled {
            self.stage = Stage::LocalserverProbe;
            Action::Probe(Service::Localserver)
        } else {
            self.stage = Stage::LocalserverDisabled;
            Action::NoteLocalserverDisabled
        }
    }

    fn go_to_frontend(&mut self) -> (r: Action)
        ensures
            (final(self)@, r@) == to_frontend(old(self)@),
    {
        self.stage = Stage::FrontendProbe;
        Action::Probe(Service::Frontend)
    }

    /// Takes the outcome of the work last asked for and gives the work to do next.
    pub fn advance(&mut self, outcome: Outcome) -> (r: Action)
        ensures
            (final(self)@, r@) == next(old(self)@, outcome@),
    {
        let ok = match &outcome {
            Outcome::Yes => true,
            Outcome::Found(_) => true,
            _ => false,
        };
        match self.stage {
            Stage::LogDir => if ok {
                self.to(Stage::Dir(Project::Tapnow));
                Action::CheckDir(Project::Tapnow)
            } else {
                let m = outcome_text(outcome);
                self.fail_with(LaunchError::Io(m))
            },
            Stage::Dir(p) => {
                match ensure_path(ok, self.dir_path(p).as_str(), p.dir_missing()) {
                    Err(e) => self.fail_with(e),
                    Ok(()) => if p == Project::Tapnow {
                        self.to(Stage::Dir(Project::Jimeng));
                        Action::CheckDir(Project::Jimeng)
                    } else {
                        self.to(Stage::Package(Project::Tapnow));
                        Action::CheckPackage(Project::Tapnow)
                    },
                }
            },
            Stage::Package(p) => {
                match ensure_file(ok, self.package_path(p).as_str(), p.package_missing()) {
                    Err(e) => self.fail_with(e),
                    Ok(()) => if p == Project::Tapnow {
                        self.to(Stage::Package(Project::Jimeng));
                        Action::CheckPackage(Project::Jimeng)
                    } else {
                        self.to(Stage::OutputCheck(Project::Tapnow));
                        Action::CheckBuildOutput(Project::Tapnow)
                    },
                }
            },
            Stage::OutputCheck(p) => if ok {
                self.go_after_output(p)
            } else {
                self.to(Stage::FindNpm(p));
                Action::FindNpm(p)
            },
            Stage::FindNpm(p) => match outcome {
                Outcome::Found(npm) => {
                    self.to(Stage::Build(p));
                    Action::Build { project: p, npm }
                },
                _ => self.fail_with(LaunchError::NpmUnavailable(p)),
            },
            Stage::Build(p) => if ok {
                self.to(Stage::OutputRecheck(p));
                Action::CheckBuildOutput(p)
            } else {
                let m = outcome_text(outcome);
                self.fail_with(LaunchError::Io(m))
            },
            Stage::OutputRecheck(p) => if ok {
                self.go_after_output(p)
            } else {
                self.fail_with(LaunchError::BuildOutputMissing(p))
            },
            Stage::FindNode => match outcome {
                Outcome::Found(node) => {
                    self.stage = Stage::ApiProbe;
                    self.node = node;
                    Action::Probe(Service::Api)
                },
                _ => self.fail_with(LaunchError::NodeNotFound),
            },
            Stage::ApiProbe => if ok {
                self.go_after_api()
            } else {
                self.to(Stage::ApiStart);
                Action::StartApi { node: self.node.clone() }
            },
            Stage::ApiStart => if ok {
                self.to(Stage::ApiWait);
                Action::Wait(Service::Api)
            } else {
                let m = outcome_text(outcome);
                self.fail_with(LaunchError::Io(m))
            },
            Stage::ApiWait => if ok {
                self.go_after_api()
            } else {
                self.fail_with(LaunchError::StartTimeout(Service::Api))
            },
            Stage::LocalserverDisabled => self.go_to_frontend(),
            Stage::LocalserverProbe => if ok {
                self.go_to_frontend()
            } else {
                self.to(Stage::LocalserverScript);
                Action::CheckScript
            },
            Stage::LocalserverScript => if ok {
                self.to(Stage::LocalserverPython);
                Action::FindPython
            } else {
                let path = self.paths.localserver_script.clone();
                self.warn_with(LaunchError::ScriptNotFound { path })
            },
            Stage::LocalserverPython => match outcome {
                Outcome::Found(python) => {
                    self.to(Stage::LocalserverStart);
                    Action::StartLocalserver { python }
                },
                _ => self.warn_with(LaunchError::PythonNotFound),
            },
            Stage::LocalserverStart => if ok {
                self.to(Stage::LocalserverWait);
                Action::Wait(Service::Localserver)
            } else {
                let m = outcome_text(outcome);
                self.warn_with(LaunchError::Io(m))
            },
            Stage::LocalserverWait => if ok {
                self.go_to_frontend()
            } else {
                self.warn_with(LaunchError::StartTimeout(Service::Localserver))
            },
            Stage::LocalserverWarned => self.go_to_frontend(),
            Stage::FrontendProbe => if ok {
                self.to(Stage::Browser);
                Action::OpenBrowser
            } else {
                self.to(Stage::FrontendStart);
                Action::StartFrontend
            },
            Stage::FrontendStart => if ok {
                self.to(Stage::FrontendWait);
                Action::Wait(Service::Frontend)
            } else {
                let m = outcome_text(outcome);
                self.fail_with(LaunchError::Io(m))
            },
            Stage::FrontendWait => if ok {
                self.to(Stage::Browser);
                Action::OpenBrowser
            } else {
                self.fail_with(LaunchError::StartTimeout(Service::Frontend))
            },
            Stage::Browser => if ok {
                self.to(Stage::Done);
                Action::Finish
            } else {
                let m = outcome_text(outcome);
                self.fail_with(LaunchError::Io(m))
            },
            Stage::Done => Action::Idle,
            Stage::Failed => Action::Idle,
        }
    }
}

} // verus!
verus! {

/// The place of a stage in the order in which a launch goes through them.
pub open spec fn rank(s: Stage) -> int {
    match s {
        Stage::LogDir => 0,
        Stage::Dir(Project::Tapnow) => 1,
        Stage::Dir(Project::Jimeng) => 2,
        Stage::Package(Project::Tapnow) => 3,
        Stage::Package(Project::Jimeng) => 4,
        Stage::OutputCheck(Project::Tapnow) => 5,
        Stage::FindNpm(Project::Tapnow) => 6,
        Stage::Build(Project::Tapnow) => 7,
        Stage::OutputRecheck(Project::Tapnow) => 8,
        Stage::OutputCheck(Project::Jimeng) => 9,
        Stage::FindNpm(Project::Jimeng) => 10,
        Stage::Build(Project::Jimeng) => 11,
        Stage::OutputRecheck(Project::Jimeng) => 12,
        Stage::FindNode => 13,
        Stage::ApiProbe => 14,
        Stage::ApiStart => 15,
        Stage::ApiWait => 16,
        Stage::LocalserverDisabled => 17,
        Stage::LocalserverProbe => 18,
        Stage::LocalserverScript => 19,
        Stage::LocalserverPython => 20,
        Stage::LocalserverStart => 21,
        Stage::LocalserverWait => 22,
        Stage::LocalserverWarned => 23,
        Stage::FrontendProbe => 24,
        Stage::FrontendStart => 25,
        Stage::FrontendWait => 26,
        Stage::Browser => 27,
        Stage::Done => 28,
        Stage::Failed => 29,
    }
}

pub open spec fn is_terminal(s: Stage) -> bool {
    s == Stage::Done || s == Stage::Failed
}

pub open spec fn is_localserver_stage(s: Stage) -> bool {
    ||| s == Stage::LocalserverDisabled
    ||| s == Stage::LocalserverProbe
    ||| s == Stage::LocalserverScript
    ||| s == Stage::LocalserverPython
    ||| s == Stage::LocalserverStart
    ||| s == Stage::LocalserverWait
    ||| s == Stage::LocalserverWarned
}

/// Every step of a launch that has not ended moves it to a later stage, and an ended
/// launch stays as it is and asks for nothing: no work is ever asked for twice.
pub proof fn lemma_launch_moves_forward(l: LauncherView, o: OutcomeView)
    ensures
        !is_terminal(l.stage) ==> rank(next(l, o).0.stage) > rank(l.stage),
        is_terminal(l.stage) ==> next(l, o).0 == l && next(l, o).1 == ActionView::Idle,
        0 <= rank(l.stage) <= 29,
        rank(l.stage) >= 28 <==> is_terminal(l.stage),
{
}

/// The stage after a run of outcomes.
pub open spec fn run(l: LauncherView, os: Seq<OutcomeView>) -> LauncherView
    decreases os.len(),
{
    if os.len() == 0 {
        l
    } else {
        run(next(l, os[0]).0, os.drop_first())
    }
}

proof fn lemma_run_rank(l: LauncherView, os: Seq<OutcomeView>)
    ensures
        is_terminal(run(l, os).stage) || rank(run(l, os).stage) >= rank(l.stage) + os.len(),
    decreases os.len(),
{
    if os.len() > 0 {
        lemma_launch_moves_forward(l, os[0]);
        lemma_run_rank(next(l, os[0]).0, os.drop_first());
        if is_terminal(next(l, os[0]).0.stage) {
            lemma_run_stays_terminal(next(l, os[0]).0, os.drop_first());
        }
    }
}

proof fn lemma_run_stays_terminal(l: LauncherView, os: Seq<OutcomeView>)
    requires
        is_terminal(l.stage),
    ensures
        run(l, os) == l,
    decreases os.len(),
{
    if os.len() > 0 {
        lemma_launch_moves_forward(l, os[0]);
        lemma_run_stays_terminal(next(l, os[0]).0, os.drop_first());
    }
}

/// Whatever the outside work reports, a launch has ended (succeeded or failed) after at
/// most 28 steps from its start.
pub proof fn lemma_launch_ends(paths: PathsView, enabled: bool, os: Seq<OutcomeView>)
    requires
        os.len() >= 28,
    ensures
        is_terminal(run(first_step(paths, enabled).0, os).stage),
{
    lemma_run_rank(first_step(paths, enabled).0, os);
    lemma_launch_moves_forward(run(first_step(paths, enabled).0, os), OutcomeView::Yes);
}

/// A problem with the localserver is reported and the launch goes on: no localserver
/// stage leads to failure.
pub proof fn lemma_localserver_never_fatal(l: LauncherView, o: OutcomeView)
    requires
        is_localserver_stage(l.stage),
    ensures
        next(l, o).0.stage != Stage::Failed,
        next(l, o).1 !is Abort,
{
}

/// A missing project directory or `package.json` stops the launch with an error that
/// names the path.
pub proof fn lemma_missing_project_stops(l: LauncherView, o: OutcomeView, p: Project)
    requires
        l.stage == Stage::Dir(p) || l.stage == Stage::Package(p),
        !succeeded(o),
    ensures
        next(l, o).0.stage == Stage::Failed,
        next(l, o).1 matches ActionView::Abort(ErrorView::NotFound { message, path }) && path == (
        if l.stage == Stage::Dir(p) {
            l.paths.dir(p)
        } else {
            l.paths.package(p)
        }),
{
}

/// A service that already answers is not started again.
pub proof fn lemma_running_service_not_restarted(l: LauncherView, o: OutcomeView)
    requires
        l.stage == Stage::ApiProbe || l.stage == Stage::LocalserverProbe || l.stage == Stage::FrontendProbe,
        succeeded(o),
    ensures
        !(next(l, o).1 is StartApi || next(l, o).1 is StartLocalserver || next(l, o).1 is StartFrontend),
{
}

/// The browser is opened only once the frontend answers, and a launch succeeds only once
/// the browser was opened.
pub proof fn lemma_browser_after_frontend(l: LauncherView, o: OutcomeView)
    ensures
        next(l, o).1 is OpenBrowser ==> (l.stage == Stage::FrontendProbe || l.stage == Stage::FrontendWait) && succeeded(o),
        next(l, o).1 is Finish ==> l.stage == Stage::Browser && succeeded(o),
{
}

/// jimeng-api is started only with the node that was found for it.
pub proof fn lemma_api_started_with_found_node(l: LauncherView, o: OutcomeView, n: Seq<char>)
    requires
        l.stage == Stage::FindNode,
        o == OutcomeView::Found(n),
    ensures
        ({
            let l2 = next(l, o).0;
            &&& l2.stage == Stage::ApiProbe
            &&& next(l2, OutcomeView::No).1 == ActionView::StartApi { node: n }
        }),
{
}

} // verus!

verus! {

/// How long a waiting launcher sleeps before it asks a service again, in milliseconds.
pub const POLL_INTERVAL_MS: u64 = 800;

/// How long the launcher waits for a service to answer, in milliseconds.
pub fn health_timeout_ms() -> (r: u64)
    ensures
        r == crate::config::HEALTH_TIMEOUT_SECS * 1000,
{
    crate::config::HEALTH_TIMEOUT_SECS * 1000
}

/// What a wait for a service does next.
#[derive(Debug, Clone, Copy, PartialEq, Eq, Structural)]
pub enum WaitStep {
    /// Ask the service whether it answers.
    Check,
    /// Sleep this many milliseconds, then go on.
    Sleep(u64),
    /// The service answers.
    Started,
    /// The timeout has passed before the service answered.
    TimedOut,
}

/// The next step of a wait: before a check (`checked` is `None`), check while less than
/// `timeout_ms` has passed and time out otherwise, without checking; after a check, stop
/// where the service answered, else sleep for the poll interval.
pub open spec fn next_wait_step(elapsed_ms: u64, timeout_ms: u64, checked: Option<bool>) -> WaitStep {
    match checked {
        None => if elapsed_ms < timeout_ms {
            WaitStep::Check
        } else {
            WaitStep::TimedOut
        },
        Some(true) => WaitStep::Started,
        Some(false) => WaitStep::Sleep(POLL_INTERVAL_MS),
    }
}

/// The next step of a wait, `elapsed_ms` after it began; `checked` is what the check just
/// made answered, or `None` before a check.
pub fn wait_step(elapsed_ms: u64, timeout_ms: u64, checked: Option<bool>) -> (r: WaitStep)
    ensures
        r == next_wait_step(elapsed_ms, timeout_ms, checked),
{
    match checked {
        None => if elapsed_ms < timeout_ms {
            WaitStep::Check
        } else {
            WaitStep::TimedOut
        },
        Some(true) => WaitStep::Started,
        Some(false) => WaitStep::Sleep(POLL_INTERVAL_MS),
    }
}

} // verus!
verus! {

/// At stage `st`, outcome `o` says that service `s` answers.
pub open spec fn answered(s: Service, st: Stage, o: OutcomeView) -> bool {
    succeeded(o) && match s {
        Service::Api => st == Stage::ApiProbe || st == Stage::ApiWait,
        Service::Localserver => st == Stage::LocalserverProbe || st == Stage::LocalserverWait,
        Service::Frontend => st == Stage::FrontendProbe || st == Stage::FrontendWait,
    }
}

/// Somewhere in the run of outcomes `os` from `l`, service `s` answered.
pub open spec fn saw_answer(l: LauncherView, os: Seq<OutcomeView>, s: Service) -> bool {
    exists|i: int| 0 <= i < os.len() && #[trigger] answered(s, run(l, os.take(i)).stage, os[i])
}

/// The last stage before the service's answer lets the launch go past it.
pub open spec fn last_stage_before_answer(s: Service) -> int {
    match s {
        Service::Api => 16,
        Service::Localserver => 22,
        Service::Frontend => 26,
    }
}

proof fn lemma_no_way_past_without_answer(l: LauncherView, o: OutcomeView, s: Service)
    requires
        s != Service::Localserver,
        rank(l.stage) <= last_stage_before_answer(s),
        !answered(s, l.stage, o),
    ensures
        next(l, o).0.stage == Stage::Failed || rank(next(l, o).0.stage) <= last_stage_before_answer(s),
{
}

proof fn lemma_done_run_saw_answer(l: LauncherView, os: Seq<OutcomeView>, s: Service)
    requires
        s != Service::Localserver,
        rank(l.stage) <= last_stage_before_answer(s),
        run(l, os).stage == Stage::Done,
    ensures
        saw_answer(l, os, s),
    decreases os.len(),
{
    if os.len() == 0 {
        assert(run(l, os) == l);
    } else {
        let o = os[0];
        let l1 = next(l, o).0;
        let rest = os.drop_first();
        assert(run(l, os) == run(l1, rest));
        assert(os.take(0) =~= Seq::<OutcomeView>::empty());
        assert(run(l, os.take(0)) == l);
        if answered(s, l.stage, o) {
            assert(answered(s, run(l, os.take(0)).stage, os[0]));
        } else {
            lemma_no_way_past_without_answer(l, o, s);
            if l1.stage == Stage::Failed {
                lemma_run_stays_terminal(l1, rest);
            } else {
                lemma_done_run_saw_answer(l1, rest, s);
                let j = choose|j: int| 0 <= j < rest.len() && #[trigger] answered(s, run(l1, rest.take(j)).stage, rest[j]);
                assert(os.take(j + 1)[0] == o);
                assert(os.take(j + 1).drop_first() =~= rest.take(j));
                assert(run(l, os.take(j + 1)) == run(l1, rest.take(j)));
                assert(os[j + 1] == rest[j]);
                assert(answered(s, run(l, os.take(j + 1)).stage, os[j + 1]));
            }
        }
    }
}

/// A launch that succeeded has seen jimeng-api answer and has seen the frontend answer,
/// whatever else the outside work reported.
pub proof fn lemma_finished_launch_saw_services(paths: PathsView, enabled: bool, os: Seq<OutcomeView>)
    requires
        run(first_step(paths, enabled).0, os).stage == Stage::Done,
    ensures
        saw_answer(first_step(paths, enabled).0, os, Service::Api),
        saw_answer(first_step(paths, enabled).0, os, Service::Frontend),
{
    lemma_done_run_saw_answer(first_step(paths, enabled).0, os, Service::Api);
    lemma_done_run_saw_answer(first_step(paths, enabled).0, os, Service::Frontend);
}

/// Waiting in vain for jimeng-api or for the frontend stops the launch with a timeout.
pub proof fn lemma_failed_wait_aborts(l: LauncherView, o: OutcomeView)
    requires
        l.stage == Stage::ApiWait || l.stage == Stage::FrontendWait,
        !succeeded(o),
    ensures
        next(l, o).0.stage == Stage::Failed,
        l.stage == Stage::ApiWait ==> next(l, o).1 == ActionView::Abort(ErrorView::StartTimeout(Service::Api)),
        l.stage == Stage::FrontendWait ==> next(l, o).1 == ActionView::Abort(ErrorView::StartTimeout(Service::Frontend)),
{
}

} // verus!
verus! {

/// The end of a wait whose rounds began `obs[i].0` milliseconds after the start and whose
/// check, where one was made in that round, answered `obs[i].1`, each round as
/// `next_wait_step` says: `Some(true)` the service answered, `Some(false)` the timeout
/// passed, `None` the wait goes on after these rounds.
pub open spec fn wait_run(timeout_ms: u64, obs: Seq<(u64, bool)>) -> Option<bool>
    decreases obs.len(),
{
    if obs.len() == 0 {
        None
    } else {
        match next_wait_step(obs[0].0, timeout_ms, None) {
            WaitStep::TimedOut => Some(false),
            _ => match next_wait_step(obs[0].0, timeout_ms, Some(obs[0].1)) {
                WaitStep::Started => Some(true),
                _ => wait_run(timeout_ms, obs.drop_first()),
            },
        }
    }
}

/// The rounds before round `i` all began within the timeout, and their checks answered no.
pub open spec fn refused_in_time(timeout_ms: u64, obs: Seq<(u64, bool)>, i: int) -> bool {
    forall|j: int| 0 <= j < i ==> (#[trigger] obs[j]).0 < timeout_ms && !obs[j].1
}

/// A wait succeeds exactly when a check made before the timeout answered yes (the checks
/// before it, all in time, answered no), and times out exactly when a round began once
/// the timeout had passed, with no check made in it; no check follows a yes.
pub proof fn lemma_wait_run(timeout_ms: u64, obs: Seq<(u64, bool)>)
    ensures
        wait_run(timeout_ms, obs) == Some(true) <==> exists|i: int|
            0 <= i < obs.len() && (#[trigger] obs[i]).0 < timeout_ms && obs[i].1 && refused_in_time(timeout_ms, obs, i),
        wait_run(timeout_ms, obs) == Some(false) <==> exists|i: int|
            0 <= i < obs.len() && (#[trigger] obs[i]).0 >= timeout_ms && refused_in_time(timeout_ms, obs, i),
    decreases obs.len(),
{
    if obs.len() > 0 {
        let rest = obs.drop_first();
        lemma_wait_run(timeout_ms, rest);
        assert forall|i: int| 0 <= i < rest.len() implies (refused_in_time(timeout_ms, rest, i) && obs[0].0 < timeout_ms && !obs[0].1
            <==> refused_in_time(timeout_ms, obs, i + 1)) by {
            if refused_in_time(timeout_ms, rest, i) && obs[0].0 < timeout_ms && !obs[0].1 {
                assert forall|j: int| 0 <= j < i + 1 implies (#[trigger] obs[j]).0 < timeout_ms && !obs[j].1 by {
                    if j > 0 {
                        assert(obs[j] == rest[j - 1]);
                    }
                }
            }
            if refused_in_time(timeout_ms, obs, i + 1) {
                assert forall|j: int| 0 <= j < i implies (#[trigger] rest[j]).0 < timeout_ms && !rest[j].1 by {
                    assert(obs[j + 1] == rest[j]);
                }
                assert(obs[0].0 < timeout_ms && !obs[0].1);
            }
        }
        assert(refused_in_time(timeout_ms, obs, 0));
        if obs[0].0 >= timeout_ms {
            assert(wait_run(timeout_ms, obs) == Some(false));
        } else if obs[0].1 {
            assert(wait_run(timeout_ms, obs) == Some(true));
            assert forall|i: int| 0 <= i < obs.len() && refused_in_time(timeout_ms, obs, i) implies i == 0 by {
                if i > 0 {
                    assert(obs[0].0 < timeout_ms && !obs[0].1);
                }
            }
        } else {
            assert(wait_run(timeout_ms, obs) == wait_run(timeout_ms, rest));
            if exists|i: int| 0 <= i < obs.len() && (#[trigger] obs[i]).0 < timeout_ms && obs[i].1 && refused_in_time(timeout_ms, obs, i) {
                let i = choose|i: int| 0 <= i < obs.len() && (#[trigger] obs[i]).0 < timeout_ms && obs[i].1 && refused_in_time(timeout_ms, obs, i);
                assert(i > 0);
                assert(obs[i] == rest[i - 1]);
            }
            if exists|i: int| 0 <= i < obs.len() && (#[trigger] obs[i]).0 >= timeout_ms && refused_in_time(timeout_ms, obs, i) {
                let i = choose|i: int| 0 <= i < obs.len() && (#[trigger] obs[i]).0 >= timeout_ms && refused_in_time(timeout_ms, obs, i);
                assert(i > 0);
                assert(obs[i] == rest[i - 1]);
            }
            if exists|i: int| 0 <= i < rest.len() && (#[trigger] rest[i]).0 < timeout_ms && rest[i].1 && refused_in_time(timeout_ms, rest, i) {
                let i = choose|i: int| 0 <= i < rest.len() && (#[trigger] rest[i]).0 < timeout_ms && rest[i].1 && refused_in_time(timeout_ms, rest, i);
                assert(obs[i + 1] == rest[i]);
            }
            if exists|i: int| 0 <= i < rest.len() && (#[trigger] rest[i]).0 >= timeout_ms && refused_in_time(timeout_ms, rest, i) {
                let i = choose|i: int| 0 <= i < rest.len() && (#[trigger] rest[i]).0 >= timeout_ms && refused_in_time(timeout_ms, rest, i);
                assert(obs[i + 1] == rest[i]);
            }
        }
    }
}

} // verus!
verus! {

/// The project built is the one whose build output was found missing: after the check of
/// `p`'s output answers no and npm is found, the build asked for is `p`'s, with that npm;
/// a build of `q` is asked for only once npm was looked for on `q`'s behalf, and that
/// happens only right after `q`'s output was found missing.
pub proof fn lemma_build_targets_missing_output(
    l: LauncherView,
    o1: OutcomeView,
    o2: OutcomeView,
    p: Project,
    npm: Seq<char>,
)
    ensures
        l.stage == Stage::OutputCheck(p) && !succeeded(o1) && o2 == OutcomeView::Found(npm) ==> next(
            next(l, o1).0,
            o2,
        ).1 == (ActionView::Build { project: p, npm }),
        next(l, o1).1 matches ActionView::Build { project, npm: m } ==> l.stage == Stage::FindNpm(project)
            && o1 == OutcomeView::Found(m),
        next(l, o1).0.stage == Stage::FindNpm(p) ==> l.stage == Stage::OutputCheck(p) && !succeeded(o1),
{
}

/// A wait times out only once the timeout has passed, and never before a check; a check
/// refused in time is followed by a sleep of the poll interval; the wait ends with the
/// service started exactly when a check answered yes.
pub proof fn lemma_wait_step_laws(elapsed_ms: u64, timeout_ms: u64, checked: Option<bool>)
    ensures
        next_wait_step(elapsed_ms, timeout_ms, checked) == WaitStep::TimedOut ==> elapsed_ms >= timeout_ms
            && (checked is None),
        elapsed_ms < timeout_ms && checked == Some(false) ==> next_wait_step(elapsed_ms, timeout_ms, checked)
            == WaitStep::Sleep(POLL_INTERVAL_MS),
        next_wait_step(elapsed_ms, timeout_ms, checked) == WaitStep::Started <==> checked == Some(true),
        (checked is None) && elapsed_ms < timeout_ms ==> next_wait_step(elapsed_ms, timeout_ms, checked)
            == WaitStep::Check,
        POLL_INTERVAL_MS == 800,
{
}

} // verus!
