use std::cell::RefCell;

use tapnow_launcher::commands::{
    bundled_bin_dir, bundled_node, bundled_project_dir, bundled_python,
    default_localserver_script, frontend_dist, log_dir_components,
    api_args, browser_candidates, browser_launch, browser_url, ensure_file, ensure_path,
    localserver_args, node_candidates, npm_candidates, python_candidates, resolve_command,
    resolve_node_command, resolve_python_command,
};
use tapnow_launcher::config::{
    frontend_mode_requested, frontend_server_args, run_frontend_server_mode, EnvValues,
    LauncherSettings, DEFAULT_JIMENG_API_DIR, DEFAULT_TAPNOW_STUDIO_DIR,
};
use tapnow_launcher::error::{timeout_message, LaunchError};
use tapnow_launcher::launcher::{
    health_timeout_ms, wait_step, Action, LaunchPaths, Launcher, Outcome, Project, Service, Stage,
    WaitStep,
};
use tapnow_launcher::text::IntErrorKind;

fn strings(v: &[&str]) -> Vec<String> {
    v.iter().map(|s| s.to_string()).collect()
}

#[test]
fn first_runnable_candidate_wins() {
    let cands = strings(&["a", "b", "c"]);
    let tried = RefCell::new(Vec::new());
    let r = resolve_command(&cands, |i| {
        tried.borrow_mut().push(i);
        i >= 1
    });
    assert_eq!(r.as_deref(), Some("b"));
    assert_eq!(*tried.borrow(), vec![0, 1]);
    assert_eq!(resolve_command(&cands, |_| false), None);
}

#[test]
fn bundled_commands_come_first() {
    let r = resolve_node_command(Some("C:\\rt\\bin\\node.exe".to_string()), |_| panic!("no probe"));
    assert_eq!(r.as_deref(), Some("C:\\rt\\bin\\node.exe"));
    assert_eq!(resolve_node_command(None, |i| i == 1).as_deref(), Some("node.exe"));
    assert_eq!(resolve_node_command(None, |_| false), None);
    assert_eq!(resolve_python_command(None, |i| i >= 2).as_deref(), Some("py"));
    assert_eq!(
        resolve_python_command(Some("p.exe".to_string()), |_| true).as_deref(),
        Some("p.exe")
    );
}

#[test]
fn candidate_lists() {
    assert_eq!(node_candidates(), strings(&["node", "node.exe"]));
    assert_eq!(npm_candidates(), strings(&["npm", "npm.cmd"]));
    assert_eq!(python_candidates(), strings(&["python", "python.exe", "py", "py.exe"]));
    assert_eq!(
        browser_candidates(),
        strings(&["msedge", "msedge.exe", "chrome", "chrome.exe", "firefox", "firefox.exe"])
    );
    assert_eq!(api_args(), strings(&["dist/index.js"]));
    assert_eq!(localserver_args("tapnow-server-full.py", 9527), strings(&["tapnow-server-full.py", "--port", "9527"]));
    assert_eq!(Project::Tapnow.build_args(), strings(&["exec", "vite", "build"]));
    assert_eq!(Project::Jimeng.build_args(), strings(&["run", "build"]));
    assert_eq!(Project::Tapnow.build_output(), strings(&["dist", "index.html"]));
    assert_eq!(Project::Jimeng.build_output(), strings(&["dist", "index.js"]));
}

#[test]
fn browser_choice() {
    assert_eq!(browser_url(8080), "http://127.0.0.1:8080");
    let b = browser_launch(8080, |i| i == 0);
    assert_eq!(b.program, "msedge");
    assert_eq!(b.args, strings(&["--new-window", "http://127.0.0.1:8080"]));
    let b = browser_launch(8081, |i| i == 3);
    assert_eq!(b.program, "chrome.exe");
    assert_eq!(b.args, strings(&["--new-window", "http://127.0.0.1:8081"]));
    let b = browser_launch(80, |i| i >= 4);
    assert_eq!(b.program, "firefox");
    assert_eq!(b.args, strings(&["-new-window", "http://127.0.0.1:80"]));
    let b = browser_launch(8080, |_| false);
    assert_eq!(b.program, "cmd");
    assert_eq!(b.args, strings(&["/C", "start", "", "msedge", "--new-window", "http://127.0.0.1:8080"]));
    assert!(b.via_shell);
}

#[test]
fn ensure_reports_the_path() {
    assert!(ensure_path(true, "D:\\x", "Tapnow Studio directory not found").is_ok());
    let e = ensure_path(false, "D:\\x", "Tapnow Studio directory not found").unwrap_err();
    assert_eq!(e.message(), "Tapnow Studio directory not found: D:\\x");
    assert!(ensure_file(true, "p.json", "m").is_ok());
    let e = ensure_file(false, "D:\\x\\package.json", "jimeng-api package.json not found").unwrap_err();
    assert_eq!(e.message(), "jimeng-api package.json not found: D:\\x\\package.json");
}

#[test]
fn frontend_mode_arguments() {
    assert!(frontend_mode_requested(&strings(&["exe", "--serve-frontend"])));
    assert!(!frontend_mode_requested(&strings(&["exe"])));
    assert!(!frontend_mode_requested(&strings(&["exe", "--serve"])));
    let f = run_frontend_server_mode(&strings(&["exe", "--serve-frontend", "D:\\dist", "8080"])).unwrap();
    assert_eq!(f.dist_dir, "D:\\dist");
    assert_eq!(f.port, 8080);
    let e = run_frontend_server_mode(&strings(&["exe", "--serve-frontend", "D:\\dist"])).unwrap_err();
    assert!(matches!(e, LaunchError::Usage));
    assert_eq!(e.message(), "usage: --serve-frontend <dist_dir> <port>");
    let e = run_frontend_server_mode(&strings(&["exe", "--serve-frontend", "d", "80x"])).unwrap_err();
    assert!(matches!(e, LaunchError::InvalidFrontendPort { kind: IntErrorKind::InvalidDigit, .. }));
    assert_eq!(e.message(), "invalid frontend port: 80x: invalid digit found in string");
    let e = run_frontend_server_mode(&strings(&["exe", "--serve-frontend", "d", "70000"])).unwrap_err();
    assert_eq!(e.message(), "invalid frontend port: 70000: number too large to fit in target type");
    let e = run_frontend_server_mode(&strings(&["exe", "--serve-frontend", "d", ""])).unwrap_err();
    assert_eq!(e.message(), "invalid frontend port: : cannot parse integer from empty string");
}

#[test]
fn started_frontend_reads_its_arguments_back() {
    let mut args = vec!["launcher.exe".to_string()];
    args.extend(frontend_server_args("C:\\Tapnow\\dist", 8123));
    assert!(frontend_mode_requested(&args));
    let f = run_frontend_server_mode(&args).unwrap();
    assert_eq!(f.dist_dir, "C:\\Tapnow\\dist");
    assert_eq!(f.port, 8123);
}

fn no_env() -> EnvValues {
    EnvValues {
        tapnow_dir: None,
        jimeng_dir: None,
        frontend_port: None,
        api_port: None,
        localserver_port: None,
        enable_localserver: None,
        localserver_script: None,
    }
}

#[test]
fn settings_defaults() {
    let s = LauncherSettings::resolve(&no_env(), None, None);
    assert_eq!(s.tapnow_dir, DEFAULT_TAPNOW_STUDIO_DIR);
    assert_eq!(s.jimeng_dir, DEFAULT_JIMENG_API_DIR);
    assert_eq!(s.frontend_port, 8080);
    assert_eq!(s.api_port, 5100);
    assert_eq!(s.localserver_port, 9527);
    assert!(s.enable_localserver);
    assert_eq!(s.localserver_script, None);
}

#[test]
fn settings_prefer_environment_then_bundle() {
    let mut env = no_env();
    env.tapnow_dir = Some("E:\\tapnow".to_string());
    env.frontend_port = Some("9000".to_string());
    env.api_port = Some("bad".to_string());
    env.enable_localserver = Some("0".to_string());
    env.localserver_script = Some("s.py".to_string());
    let s = LauncherSettings::resolve(&env, Some("B:\\tapnow".to_string()), Some("B:\\jimeng".to_string()));
    assert_eq!(s.tapnow_dir, "E:\\tapnow");
    assert_eq!(s.jimeng_dir, "B:\\jimeng");
    assert_eq!(s.frontend_port, 9000);
    assert_eq!(s.api_port, 5100);
    assert!(!s.enable_localserver);
    assert_eq!(s.localserver_script.as_deref(), Some("s.py"));
}

fn paths() -> LaunchPaths {
    LaunchPaths {
        tapnow_dir: "T".to_string(),
        jimeng_dir: "J".to_string(),
        tapnow_package: "T\\package.json".to_string(),
        jimeng_package: "J\\package.json".to_string(),
        localserver_script: "T\\localserver\\tapnow-server-full.py".to_string(),
    }
}

#[test]
fn launch_that_builds_and_starts_everything() {
    let (mut l, a) = Launcher::start(paths(), true);
    assert!(matches!(a, Action::CreateLogDir));
    assert!(matches!(l.advance(Outcome::Yes), Action::CheckDir(Project::Tapnow)));
    assert!(matches!(l.advance(Outcome::Yes), Action::CheckDir(Project::Jimeng)));
    assert!(matches!(l.advance(Outcome::Yes), Action::CheckPackage(Project::Tapnow)));
    assert!(matches!(l.advance(Outcome::Yes), Action::CheckPackage(Project::Jimeng)));
    assert!(matches!(l.advance(Outcome::Yes), Action::CheckBuildOutput(Project::Tapnow)));
    assert!(matches!(l.advance(Outcome::No), Action::FindNpm(Project::Tapnow)));
    match l.advance(Outcome::Found("npm.cmd".to_string())) {
        Action::Build { project: Project::Tapnow, npm } => assert_eq!(npm, "npm.cmd"),
        other => panic!("{other:?}"),
    }
    assert!(matches!(l.advance(Outcome::Yes), Action::CheckBuildOutput(Project::Tapnow)));
    assert!(matches!(l.advance(Outcome::Yes), Action::CheckBuildOutput(Project::Jimeng)));
    assert!(matches!(l.advance(Outcome::Yes), Action::FindNode));
    assert!(matches!(l.advance(Outcome::Found("node".to_string())), Action::Probe(Service::Api)));
    match l.advance(Outcome::No) {
        Action::StartApi { node } => assert_eq!(node, "node"),
        other => panic!("{other:?}"),
    }
    assert!(matches!(l.advance(Outcome::Yes), Action::Wait(Service::Api)));
    assert!(matches!(l.advance(Outcome::Yes), Action::Probe(Service::Localserver)));
    assert!(matches!(l.advance(Outcome::No), Action::CheckScript));
    assert!(matches!(l.advance(Outcome::Yes), Action::FindPython));
    match l.advance(Outcome::Found("py".to_string())) {
        Action::StartLocalserver { python } => assert_eq!(python, "py"),
        other => panic!("{other:?}"),
    }
    assert!(matches!(l.advance(Outcome::Yes), Action::Wait(Service::Localserver)));
    assert!(matches!(l.advance(Outcome::Yes), Action::Probe(Service::Frontend)));
    assert!(matches!(l.advance(Outcome::No), Action::StartFrontend));
    assert!(matches!(l.advance(Outcome::Yes), Action::Wait(Service::Frontend)));
    assert!(matches!(l.advance(Outcome::Yes), Action::OpenBrowser));
    assert!(matches!(l.advance(Outcome::Yes), Action::Finish));
    assert_eq!(l.stage, Stage::Done);
    assert!(matches!(l.advance(Outcome::No), Action::Idle));
    assert_eq!(l.stage, Stage::Done);
}

#[test]
fn running_services_are_left_alone() {
    let (mut l, _) = Launcher::start(paths(), false);
    for _ in 0..5 {
        l.advance(Outcome::Yes);
    }
    assert!(matches!(l.advance(Outcome::Yes), Action::CheckBuildOutput(Project::Jimeng)));
    assert!(matches!(l.advance(Outcome::Yes), Action::FindNode));
    assert!(matches!(l.advance(Outcome::Found("node".to_string())), Action::Probe(Service::Api)));
    assert!(matches!(l.advance(Outcome::Yes), Action::NoteLocalserverDisabled));
    assert!(matches!(l.advance(Outcome::Yes), Action::Probe(Service::Frontend)));
    assert!(matches!(l.advance(Outcome::Yes), Action::OpenBrowser));
    assert!(matches!(l.advance(Outcome::Yes), Action::Finish));
}

#[test]
fn missing_directory_stops_the_launch() {
    let (mut l, _) = Launcher::start(paths(), true);
    l.advance(Outcome::Yes);
    match l.advance(Outcome::No) {
        Action::Abort(e) => assert_eq!(e.message(), "Tapnow Studio directory not found: T"),
        other => panic!("{other:?}"),
    }
    assert_eq!(l.stage, Stage::Failed);
    assert!(matches!(l.advance(Outcome::Yes), Action::Idle));
}

#[test]
fn missing_package_and_build_failures_stop_the_launch() {
    let (mut l, _) = Launcher::start(paths(), true);
    l.advance(Outcome::Yes);
    l.advance(Outcome::Yes);
    l.advance(Outcome::Yes);
    l.advance(Outcome::Yes);
    match l.advance(Outcome::No) {
        Action::Abort(e) => assert_eq!(e.message(), "jimeng-api package.json not found: J\\package.json"),
        other => panic!("{other:?}"),
    }
    let (mut l, _) = Launcher::start(paths(), true);
    for _ in 0..5 {
        l.advance(Outcome::Yes);
    }
    l.advance(Outcome::No);
    match l.advance(Outcome::No) {
        Action::Abort(e) => assert_eq!(
            e.message(),
            "Tapnow dist/index.html missing and npm is unavailable. Rebuild setup package on builder machine."
        ),
        other => panic!("{other:?}"),
    }
    let (mut l, _) = Launcher::start(paths(), true);
    for _ in 0..5 {
        l.advance(Outcome::Yes);
    }
    l.advance(Outcome::Yes);
    l.advance(Outcome::No);
    l.advance(Outcome::Found("npm".to_string()));
    l.advance(Outcome::Yes);
    match l.advance(Outcome::No) {
        Action::Abort(e) => assert_eq!(e.message(), "jimeng-api build completed but dist/index.js is still missing"),
        other => panic!("{other:?}"),
    }
}

fn to_api_probe(enabled: bool) -> Launcher {
    let (mut l, _) = Launcher::start(paths(), enabled);
    for _ in 0..7 {
        l.advance(Outcome::Yes);
    }
    l.advance(Outcome::Found("node".to_string()));
    assert_eq!(l.stage, Stage::ApiProbe);
    l
}

#[test]
fn node_missing_and_api_timeout_stop_the_launch() {
    let (mut l, _) = Launcher::start(paths(), true);
    for _ in 0..7 {
        l.advance(Outcome::Yes);
    }
    match l.advance(Outcome::No) {
        Action::Abort(e) => assert_eq!(
            e.message(),
            "Node runtime not found. Installer should include runtime\\bin\\node.exe, or install Node.js."
        ),
        other => panic!("{other:?}"),
    }
    let mut l = to_api_probe(true);
    l.advance(Outcome::No);
    l.advance(Outcome::Yes);
    match l.advance(Outcome::No) {
        Action::Abort(e) => assert_eq!(e.message(), "Jimeng API start timeout (90s)"),
        other => panic!("{other:?}"),
    }
    let mut l = to_api_probe(true);
    l.advance(Outcome::No);
    match l.advance(Outcome::Failed("failed to start background command: node".to_string())) {
        Action::Abort(e) => assert_eq!(e.message(), "failed to start background command: node"),
        other => panic!("{other:?}"),
    }
}

#[test]
fn localserver_problems_only_warn() {
    let mut l = to_api_probe(true);
    l.advance(Outcome::Yes);
    assert!(matches!(l.advance(Outcome::No), Action::CheckScript));
    match l.advance(Outcome::No) {
        Action::Warn(e) => assert_eq!(e.message(), "localserver script not found at T\\localserver\\tapnow-server-full.py"),
        other => panic!("{other:?}"),
    }
    assert!(matches!(l.advance(Outcome::Yes), Action::Probe(Service::Frontend)));

    let mut l = to_api_probe(true);
    l.advance(Outcome::Yes);
    l.advance(Outcome::No);
    l.advance(Outcome::Yes);
    match l.advance(Outcome::No) {
        Action::Warn(e) => assert_eq!(
            e.message(),
            "python runtime not found (expected runtime/bin/python/python.exe or system PATH)"
        ),
        other => panic!("{other:?}"),
    }

    let mut l = to_api_probe(true);
    l.advance(Outcome::Yes);
    l.advance(Outcome::No);
    l.advance(Outcome::Yes);
    l.advance(Outcome::Found("python".to_string()));
    l.advance(Outcome::Yes);
    match l.advance(Outcome::No) {
        Action::Warn(e) => assert_eq!(e.message(), "Tapnow localserver start timeout (90s)"),
        other => panic!("{other:?}"),
    }
    assert!(matches!(l.advance(Outcome::Yes), Action::Probe(Service::Frontend)));
}

#[test]
fn frontend_failures_stop_the_launch() {
    let mut l = to_api_probe(false);
    l.advance(Outcome::Yes);
    l.advance(Outcome::Yes);
    assert!(matches!(l.advance(Outcome::No), Action::StartFrontend));
    l.advance(Outcome::Yes);
    match l.advance(Outcome::No) {
        Action::Abort(e) => assert_eq!(e.message(), "Tapnow frontend start timeout (90s)"),
        other => panic!("{other:?}"),
    }
    let mut l = to_api_probe(false);
    l.advance(Outcome::Yes);
    l.advance(Outcome::Yes);
    l.advance(Outcome::Yes);
    match l.advance(Outcome::Failed("failed to launch browser in new window".to_string())) {
        Action::Abort(e) => assert_eq!(e.message(), "failed to launch browser in new window"),
        other => panic!("{other:?}"),
    }
}

#[test]
fn every_launch_ends() {
    for seed in 0u32..64 {
        let (mut l, _) = Launcher::start(paths(), seed % 2 == 0);
        for step in 0..28u32 {
            let o = match (seed >> (step % 5)) % 4 {
                0 => Outcome::Yes,
                1 => Outcome::No,
                2 => Outcome::Found("x".to_string()),
                _ => Outcome::Failed("e".to_string()),
            };
            l.advance(o);
        }
        assert!(l.stage == Stage::Done || l.stage == Stage::Failed);
    }
}

#[test]
fn waiting_steps() {
    assert_eq!(health_timeout_ms(), 90_000);
    assert_eq!(wait_step(0, 90_000, None), WaitStep::Check);
    assert_eq!(wait_step(89_999, 90_000, None), WaitStep::Check);
    assert_eq!(wait_step(90_000, 90_000, None), WaitStep::TimedOut);
    assert_eq!(wait_step(95_000, 90_000, Some(true)), WaitStep::Started);
    assert_eq!(wait_step(10, 90_000, Some(false)), WaitStep::Sleep(800));
}

#[test]
fn layout_of_files() {
    assert_eq!(bundled_project_dir(Project::Tapnow), strings(&["runtime", "Tapnow-Studio-PP"]));
    assert_eq!(bundled_project_dir(Project::Jimeng), strings(&["runtime", "jimeng-api"]));
    assert_eq!(bundled_bin_dir(), strings(&["runtime", "bin"]));
    assert_eq!(bundled_node(), strings(&["node.exe"]));
    assert_eq!(bundled_python(), strings(&["python", "python.exe"]));
    assert_eq!(default_localserver_script(), strings(&["localserver", "tapnow-server-full.py"]));
    assert_eq!(log_dir_components(), strings(&["TapnowStudio", "logs"]));
    assert_eq!(frontend_dist(), strings(&["dist", "index.html"]));
    assert_eq!(Service::Api.log_file(), "jimeng-api.log");
    assert_eq!(Service::Localserver.log_file(), "tapnow-localserver.log");
    assert_eq!(Service::Frontend.log_file(), "tapnow-web.log");
}

#[test]
fn timeout_messages_carry_name_and_seconds() {
    assert_eq!(timeout_message("X", 0), "X start timeout (0s)");
    assert_eq!(timeout_message("Jimeng API", 90_000), "Jimeng API start timeout (90s)");
    assert_eq!(timeout_message("Y", 1_999), "Y start timeout (1s)");
}

#[test]
fn a_zero_timeout_never_checks() {
    let mut checks = 0;
    let mut elapsed: u64 = 0;
    let mut answer = None;
    let outcome = loop {
        match wait_step(elapsed, 0, answer) {
            WaitStep::Check => {
                checks += 1;
                answer = Some(true);
            }
            WaitStep::Sleep(ms) => {
                elapsed += ms;
                answer = None;
            }
            WaitStep::Started => break Ok(()),
            WaitStep::TimedOut => break Err(timeout_message("X", 0)),
        }
    };
    assert_eq!(outcome, Err("X start timeout (0s)".to_string()));
    assert_eq!(checks, 0);
}

#[test]
fn a_wait_succeeds_when_a_check_answers_in_time() {
    let mut checks = 0;
    let mut elapsed: u64 = 0;
    let mut answer = None;
    let outcome = loop {
        match wait_step(elapsed, 3_000, answer) {
            WaitStep::Check => {
                checks += 1;
                answer = Some(checks == 3);
            }
            WaitStep::Sleep(ms) => {
                elapsed += ms;
                answer = None;
            }
            WaitStep::Started => break Ok(()),
            WaitStep::TimedOut => break Err(timeout_message("X", 3_000)),
        }
    };
    assert_eq!(outcome, Ok(()));
    assert_eq!(checks, 3);
}
