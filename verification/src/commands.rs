use vstd::prelude::*;

use crate::error::LaunchError;
use crate::launcher::Project;
use crate::text::{dec, decimal};

verus! {

/// `pick` is the first of the `n` candidates that `probe` accepted: every earlier one was
/// refused. `None`: every candidate was refused.
pub open spec fn picks_first<F: Fn(usize) -> bool>(probe: F, n: int, pick: Option<usize>) -> bool {
    match pick {
        Some(i) => {
            &&& i < n
            &&& call_ensures(probe, (i,), true)
            &&& forall|j: usize| j < i ==> #[trigger] call_ensures(probe, (j,), false)
        },
        None => forall|j: usize| j < n ==> #[trigger] call_ensures(probe, (j,), false),
    }
}

/// Tries the candidates in order and stops at the first that `probe` accepts.
pub fn first_available<F: Fn(usize) -> bool>(n: usize, probe: F) -> (r: Option<usize>)
    requires
        forall|i: usize| i < n ==> call_requires(probe, (i,)),
    ensures
        picks_first(probe, n as int, r),
{
    let mut i: usize = 0;
    while i < n
        invariant
            i <= n,
            forall|k: usize| k < n ==> call_requires(probe, (k,)),
            forall|j: usize| j < i ==> #[trigger] call_ensures(probe, (j,), false),
        decreases n - i,
    {
        if probe(i) {
            return Some(i);
        }
        i = i + 1;
    }
    None
}

pub open spec fn views(v: Seq<String>) -> Seq<Seq<char>> {
    v.map_values(|s: String| s@)
}

/// The command of the first candidate that `probe` (called with the candidate's
/// position) finds runnable, trying them in order.
pub fn resolve_command<F: Fn(usize) -> bool>(candidates: &Vec<String>, probe: F) -> (r: Option<String>)
    requires
        forall|i: usize| i < candidates.len() ==> call_requires(probe, (i,)),
    ensures
        match r {
            Some(c) => exists|i: usize| picks_first(probe, candidates.len() as int, Some(i)) && c@ == candidates@[i as int]@,
            None => picks_first(probe, candidates.len() as int, None),
        },
{
    match first_available(candidates.len(), probe) {
        Some(i) => Some(candidates[i].clone()),
        None => None,
    }
}

fn strings(a: &str, b: &str) -> (r: Vec<String>)
    ensures
        views(r@) == seq![a@, b@],
{
    let mut r: Vec<String> = Vec::new();
    r.push(String::from_str(a));
    r.push(String::from_str(b));
    assert(views(r@) =~= seq![a@, b@]);
    r
}

pub open spec fn node_names() -> Seq<Seq<char>> {
    seq!["node"@, "node.exe"@]
}

pub open spec fn python_names() -> Seq<Seq<char>> {
    seq!["python"@, "python.exe"@, "py"@, "py.exe"@]
}

pub open spec fn npm_names() -> Seq<Seq<char>> {
    seq!["npm"@, "npm.cmd"@]
}

/// The node commands looked for on the PATH, in order.
pub fn node_candidates() -> (r: Vec<String>)
    ensures
        views(r@) == node_names(),
{
    strings("node", "node.exe")
}

/// The npm commands looked for on the PATH, in order.
pub fn npm_candidates() -> (r: Vec<String>)
    ensures
        views(r@) == npm_names(),
{
    strings("npm", "npm.cmd")
}

/// The python commands looked for on the PATH, in order.
pub fn python_candidates() -> (r: Vec<String>)
    ensures
        views(r@) == python_names(),
{
    let mut r: Vec<String> = Vec::new();
    r.push(String::from_str("python"));
    r.push(String::from_str("python.exe"));
    r.push(String::from_str("py"));
    r.push(String::from_str("py.exe"));
    assert(views(r@) =~= python_names());
    r
}

/// What resolving among `names` gave: the bundled command where there is one, else the
/// first name that `probe` accepted.
pub open spec fn resolved_from<F: Fn(usize) -> bool>(
    bundled: Option<String>,
    names: Seq<Seq<char>>,
    probe: F,
    r: Option<String>,
) -> bool {
    match bundled {
        Some(b) => r == Some(b),
        None => match r {
            Some(c) => exists|i: usize| picks_first(probe, names.len() as int, Some(i)) && c@ == names[i as int],
            None => picks_first(probe, names.len() as int, None),
        },
    }
}

/// The node to run jimeng-api with: the bundled `runtime\bin\node.exe` where it is a file
/// (`bundled_node`), else the first of `node_candidates()` that `probe` (called with its
/// position) finds runnable.
pub fn resolve_node_command<F: Fn(usize) -> bool>(bundled_node: Option<String>, probe: F) -> (r: Option<String>)
    requires
        forall|i: usize| i < 2 ==> call_requires(probe, (i,)),
    ensures
        resolved_from(bundled_node, node_names(), probe, r),
{
    match bundled_node {
        Some(b) => Some(b),
        None => {
            let c = node_candidates();
            assert(views(c@).len() == c@.len());
            let r = resolve_command(&c, probe);
            proof {
                if r is Some {
                    let s = r->0;
                    let i = choose|i: usize| picks_first(probe, c.len() as int, Some(i)) && s@ == c@[i as int]@;
                    assert(views(c@)[i as int] == c@[i as int]@);
                }
            }
            r
        },
    }
}

/// The python to run the localserver with: the bundled `runtime\bin\python\python.exe`
/// where it is a file (`bundled_python`), else the first of `python_candidates()` that
/// `probe` (called with its position) finds runnable.
pub fn resolve_python_command<F: Fn(usize) -> bool>(bundled_python: Option<String>, probe: F) -> (r: Option<String>)
    requires
        forall|i: usize| i < 4 ==> call_requires(probe, (i,)),
    ensures
        resolved_from(bundled_python, python_names(), probe, r),
{
    match bundled_python {
        Some(b) => Some(b),
        None => {
            let c = python_candidates();
            assert(views(c@).len() == c@.len());
            let r = resolve_command(&c, probe);
            proof {
                if r is Some {
                    let s = r->0;
                    let i = choose|i: usize| picks_first(probe, c.len() as int, Some(i)) && s@ == c@[i as int]@;
                    assert(views(c@)[i as int] == c@[i as int]@);
                }
            }
            r
        },
    }
}

/// A path that must exist: fails, naming the path, where it does not.
pub fn ensure_path(exists: bool, path: &str, message: &str) -> (r: Result<(), LaunchError>)
    ensures
        exists ==> r is Ok,
        !exists ==> (r matches Err(LaunchError::NotFound { message: m, path: p }) && m@ == message@ && p@ == path@),
{
    if !exists {
        return Err(LaunchError::NotFound { message: String::from_str(message), path: String::from_str(path) });
    }
    Ok(())
}

/// A path that must be a file: fails, naming the path, where it is not.
pub fn ensure_file(is_file: bool, path: &str, message: &str) -> (r: Result<(), LaunchError>)
    ensures
        is_file ==> r is Ok,
        !is_file ==> (r matches Err(LaunchError::NotFound { message: m, path: p }) && m@ == message@ && p@ == path@),
{
    if !is_file {
        return Err(LaunchError::NotFound { message: String::from_str(message), path: String::from_str(path) });
    }
    Ok(())
}

impl Project {
    pub open spec fn spec_build_args(self) -> Seq<Seq<char>> {
        match self {
            Project::Tapnow => seq!["exec"@, "vite"@, "build"@],
            Project::Jimeng => seq!["run"@, "build"@],
        }
    }

    /// The npm operands that build the project.
    pub fn build_args(&self) -> (r: Vec<String>)
        ensures
            views(r@) == self.spec_build_args(),
    {
        match self {
            Project::Tapnow => {
                let mut r: Vec<String> = Vec::new();
                r.push(String::from_str("exec"));
                r.push(String::from_str("vite"));
                r.push(String::from_str("build"));
                assert(views(r@) =~= self.spec_build_args());
                r
            },
            Project::Jimeng => strings("run", "build"),
        }
    }

    pub open spec fn spec_build_output(self) -> Seq<Seq<char>> {
        match self {
            Project::Tapnow => seq!["dist"@, "index.html"@],
            Project::Jimeng => seq!["dist"@, "index.js"@],
        }
    }

    /// The path components, under the project's directory, of the build output whose
    /// presence shows that the project is built.
    pub fn build_output(&self) -> (r: Vec<String>)
        ensures
            views(r@) == self.spec_build_output(),
    {
        match self {
            Project::Tapnow => strings("dist", "index.html"),
            Project::Jimeng => strings("dist", "index.js"),
        }
    }
}

/// The operands with which node starts jimeng-api.
pub fn api_args() -> (r: Vec<String>)
    ensures
        views(r@) == seq!["dist/index.js"@],
{
    let mut r: Vec<String> = Vec::new();
    r.push(String::from_str("dist/index.js"));
    assert(views(r@) =~= seq!["dist/index.js"@]);
    r
}

/// The operands with which python starts the localserver script `script_name`.
pub fn localserver_args(script_name: &str, port: u16) -> (r: Vec<String>)
    ensures
        views(r@) == seq![script_name@, "--port"@, dec(port as nat)],
{
    let mut r: Vec<String> = Vec::new();
    r.push(String::from_str(script_name));
    r.push(String::from_str("--port"));
    r.push(decimal(port as u64));
    assert(views(r@) =~= seq![script_name@, "--port"@, dec(port as nat)]);
    r
}

} // verus!
verus! {

/// The browsers tried, in order: two names each for Edge, Chrome and Firefox.
pub open spec fn browser_names() -> Seq<Seq<char>> {
    seq!["msedge"@, "msedge.exe"@, "chrome"@, "chrome.exe"@, "firefox"@, "firefox.exe"@]
}

/// The flag that opens a new window in the browser of candidate `k`.
pub open spec fn window_flag(k: int) -> Seq<char> {
    if k / 2 == 2 {
        "-new-window"@
    } else {
        "--new-window"@
    }
}

/// The address of the frontend.
pub open spec fn frontend_url(port: u16) -> Seq<char> {
    "http://127.0.0.1:"@ + dec(port as nat)
}

/// The address of the frontend.
pub fn browser_url(port: u16) -> (r: String)
    ensures
        r@ == frontend_url(port),
{
    let mut r = String::from_str("http://127.0.0.1:");
    let p = decimal(port as u64);
    r.append(p.as_str());
    r
}

/// The browser names tried, in order.
pub fn browser_candidates() -> (r: Vec<String>)
    ensures
        views(r@) == browser_names(),
{
    let mut r: Vec<String> = Vec::new();
    r.push(String::from_str("msedge"));
    r.push(String::from_str("msedge.exe"));
    r.push(String::from_str("chrome"));
    r.push(String::from_str("chrome.exe"));
    r.push(String::from_str("firefox"));
    r.push(String::from_str("firefox.exe"));
    assert(views(r@) =~= browser_names());
    r
}

/// The command that opens the frontend in a new browser window.
pub struct BrowserLaunch {
    pub program: String,
    pub args: Vec<String>,
    /// No browser answered on the PATH: the shell's `start` opens Edge, which Windows
    /// finds by its registered application path, in a new window.
    pub via_shell: bool,
}

/// How the frontend is opened: the first of `browser_candidates()` that `probe` (called
/// with its position) finds runnable, with its new-window flag and the address; where
/// there is none, `cmd /C start "" msedge --new-window <address>`, which asks the shell to
/// open Edge (registered with Windows even where it is not on the PATH) in a new window.
pub fn browser_launch<F: Fn(usize) -> bool>(port: u16, probe: F) -> (r: BrowserLaunch)
    requires
        forall|i: usize| i < 6 ==> call_requires(probe, (i,)),
    ensures
        exists|pick: Option<usize>| #[trigger] picks_first(probe, 6, pick) && match pick {
            Some(k) => !r.via_shell && r.program@ == browser_names()[k as int] && views(r.args@) == seq![
                window_flag(k as int),
                frontend_url(port),
            ],
            None => r.via_shell && r.program@ == "cmd"@ && views(r.args@) == seq![
                "/C"@,
                "start"@,
                ""@,
                "msedge"@,
                window_flag(0),
                frontend_url(port),
            ],
        },
{
    let url = browser_url(port);
    let pick = first_available(6, probe);
    match pick {
        Some(k) => {
            let names = browser_candidates();
            assert(views(names@).len() == names@.len());
            assert(views(names@)[k as int] == names@[k as int]@);
            let flag = if k / 2 == 2 {
                String::from_str("-new-window")
            } else {
                String::from_str("--new-window")
            };
            let mut args: Vec<String> = Vec::new();
            args.push(flag);
            args.push(url);
            assert(views(args@) =~= seq![window_flag(k as int), frontend_url(port)]);
            BrowserLaunch { program: names[k].clone(), args, via_shell: false }
        },
        None => {
            let mut args: Vec<String> = Vec::new();
            args.push(String::from_str("/C"));
            args.push(String::from_str("start"));
            args.push(String::from_str(""));
            args.push(String::from_str("msedge"));
            args.push(String::from_str("--new-window"));
            args.push(url);
            assert(views(args@) =~= seq!["/C"@, "start"@, ""@, "msedge"@, window_flag(0), frontend_url(port)]);
            BrowserLaunch { program: String::from_str("cmd"), args, via_shell: true }
        },
    }
}

} // verus!
verus! {

/// The path components, under the directory of the launcher's program, of the bundled
/// runtime of the project.
pub fn bundled_project_dir(p: Project) -> (r: Vec<String>)
    ensures
        views(r@) == match p {
            Project::Tapnow => seq!["runtime"@, "Tapnow-Studio-PP"@],
            Project::Jimeng => seq!["runtime"@, "jimeng-api"@],
        },
{
    match p {
        Project::Tapnow => strings("runtime", "Tapnow-Studio-PP"),
        Project::Jimeng => strings("runtime", "jimeng-api"),
    }
}

/// The path components, under the directory of the launcher's program, of the bundled
/// `bin` directory.
pub fn bundled_bin_dir() -> (r: Vec<String>)
    ensures
        views(r@) == seq!["runtime"@, "bin"@],
{
    strings("runtime", "bin")
}

/// The path components, under the bundled `bin` directory, of the bundled node.
pub fn bundled_node() -> (r: Vec<String>)
    ensures
        views(r@) == seq!["node.exe"@],
{
    let mut r: Vec<String> = Vec::new();
    r.push(String::from_str("node.exe"));
    assert(views(r@) =~= seq!["node.exe"@]);
    r
}

/// The path components, under the bundled `bin` directory, of the bundled python.
pub fn bundled_python() -> (r: Vec<String>)
    ensures
        views(r@) == seq!["python"@, "python.exe"@],
{
    strings("python", "python.exe")
}

/// The path components, under the Tapnow directory, of the localserver script used where
/// the environment names none.
pub fn default_localserver_script() -> (r: Vec<String>)
    ensures
        views(r@) == seq!["localserver"@, "tapnow-server-full.py"@],
{
    strings("localserver", "tapnow-server-full.py")
}

/// The path components, under the local application data directory, of the log directory.
pub fn log_dir_components() -> (r: Vec<String>)
    ensures
        views(r@) == seq!["TapnowStudio"@, "logs"@],
{
    strings("TapnowStudio", "logs")
}

/// The path components, under the Tapnow directory, of the directory that the frontend
/// server serves, and of the index page in it.
pub fn frontend_dist() -> (r: Vec<String>)
    ensures
        views(r@) == seq!["dist"@, "index.html"@],
{
    strings("dist", "index.html")
}

} // verus!
