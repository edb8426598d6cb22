use vstd::prelude::*;

use crate::error::LaunchError;
use crate::text::{
    chars_of, dec, decimal, lower, lower_chars, parse_u16, parse_u16_str, same_chars, trim,
    trim_chars, IntErrorKind,
};

verus! {

/// Where Tapnow Studio lives when neither the environment nor the bundle says otherwise.
pub const DEFAULT_TAPNOW_STUDIO_DIR: &'static str = "D:\\Siuyechu\\TapnowStudio\\Tapnow-Studio-PP";

/// Where jimeng-api lives when neither the environment nor the bundle says otherwise.
pub const DEFAULT_JIMENG_API_DIR: &'static str = "D:\\Siuyechu\\TapnowStudio\\jimeng-api";

pub const DEFAULT_FRONTEND_PORT: u16 = 8080;

pub const DEFAULT_API_PORT: u16 = 5100;

pub const DEFAULT_LOCALSERVER_PORT: u16 = 9527;

/// How long the launcher waits for a service to answer, in seconds.
pub const HEALTH_TIMEOUT_SECS: u64 = 90;

/// The port that a variable's value names, or `default` where it is unset or no port.
pub open spec fn port_setting(value: Option<Seq<char>>, default: u16) -> u16 {
    match value {
        Some(v) => match parse_u16(v) {
            Ok(p) => p,
            Err(_) => default,
        },
        None => default,
    }
}

/// Reads a port from an environment variable's value (`None` where it is unset or not
/// Unicode), falling back to `default`.
pub fn env_port(value: Option<&str>, default: u16) -> (r: u16)
    ensures
        r == port_setting(
            match value {
                Some(v) => Some(v@),
                None => None,
            },
            default,
        ),
{
    match value {
        Some(v) => match parse_u16_str(v) {
            Ok(p) => p,
            Err(_) => default,
        },
        None => default,
    }
}

/// The texts that switch a flag on, once trimmed and put in lower case.
pub open spec fn is_on_word(w: Seq<char>) -> bool {
    ||| w == seq!['1']
    ||| w == seq!['t', 'r', 'u', 'e']
    ||| w == seq!['y', 'e', 's']
    ||| w == seq!['o', 'n']
}

/// The flag that a variable's value sets, or `default` where it is unset.
pub open spec fn flag_setting(value: Option<Seq<char>>, default: bool) -> bool {
    match value {
        Some(v) => is_on_word(lower(trim(v))),
        None => default,
    }
}

/// Reads a flag from an environment variable's value (`None` where it is unset or not
/// Unicode): on for `1`, `true`, `yes` or `on` in any case and with any surrounding
/// white space, off for any other value, `default` where unset.
pub fn env_bool(value: Option<&str>, default: bool) -> (r: bool)
    ensures
        r == flag_setting(
            match value {
                Some(v) => Some(v@),
                None => None,
            },
            default,
        ),
{
    match value {
        Some(v) => {
            let chars = chars_of(v);
            let trimmed = trim_chars(&chars);
            let w = lower_chars(&trimmed);
            let one: Vec<char> = vec!['1'];
            let t: Vec<char> = vec!['t', 'r', 'u', 'e'];
            let y: Vec<char> = vec!['y', 'e', 's'];
            let o: Vec<char> = vec!['o', 'n'];
            assert(one@ == seq!['1']);
            assert(t@ == seq!['t', 'r', 'u', 'e']);
            assert(y@ == seq!['y', 'e', 's']);
            assert(o@ == seq!['o', 'n']);
            same_chars(&w, &one) || same_chars(&w, &t) || same_chars(&w, &y) || same_chars(&w, &o)
        },
        None => default,
    }
}

} // verus!
verus! {

/// What `--serve-frontend <dist_dir> <port>` asks for.
#[derive(Debug)]
pub struct FrontendServe {
    pub dist_dir: String,
    pub port: u16,
}

pub open spec fn serve_flag() -> Seq<char> {
    "--serve-frontend"@
}

/// Whether the command line (program name first) asks for the frontend server mode.
pub fn frontend_mode_requested(args: &Vec<String>) -> (r: bool)
    ensures
        r == (args.len() >= 2 && args@[1]@ == serve_flag()),
{
    if args.len() < 2 {
        return false;
    }
    let flag = String::from_str("--serve-frontend");
    args[1] == flag
}

/// Reads the dist directory and the port from the command line of the frontend server
/// mode (program name first).
pub fn run_frontend_server_mode(args: &Vec<String>) -> (r: Result<FrontendServe, LaunchError>)
    ensures
        args.len() < 4 ==> r matches Err(LaunchError::Usage),
        args.len() >= 4 ==> match parse_u16(args@[3]@) {
            Ok(p) => r matches Ok(f) && f.dist_dir@ == args@[2]@ && f.port == p,
            Err(k) => r matches Err(LaunchError::InvalidFrontendPort { given, kind }) && given@
                == args@[3]@ && kind == k,
        },
{
    if args.len() < 4 {
        return Err(LaunchError::Usage);
    }
    match parse_u16_str(args[3].as_str()) {
        Ok(port) => Ok(FrontendServe { dist_dir: args[2].clone(), port }),
        Err(kind) => Err(LaunchError::InvalidFrontendPort { given: args[3].clone(), kind }),
    }
}

/// The operands with which the launcher starts itself as the frontend server.
pub fn frontend_server_args(dist_dir: &str, port: u16) -> (r: Vec<String>)
    ensures
        r@.len() == 3,
        r@[0]@ == serve_flag(),
        r@[1]@ == dist_dir@,
        r@[2]@ == dec(port as nat),
{
    let mut r: Vec<String> = Vec::new();
    r.push(String::from_str("--serve-frontend"));
    r.push(String::from_str(dist_dir));
    r.push(decimal(port as u64));
    r
}

/// The frontend server that the launcher starts reads back the directory and the port it
/// was started with: its command line (program name first, then the operands of
/// `frontend_server_args`) asks for the frontend server mode and names that directory and
/// that port.
pub proof fn lemma_frontend_args_round_trip(program: Seq<char>, dist_dir: Seq<char>, port: u16)
    ensures
        ({
            let args = seq![program, serve_flag(), dist_dir, dec(port as nat)];
            &&& args.len() >= 4
            &&& args[1] == serve_flag()
            &&& args[2] == dist_dir
            &&& parse_u16(args[3]) == Ok::<u16, IntErrorKind>(port)
        }),
{
    crate::text::lemma_parse_decimal(port);
}

/// The environment variables that the launcher reads; `None` where one is unset or not
/// Unicode.
pub struct EnvValues {
    pub tapnow_dir: Option<String>,
    pub jimeng_dir: Option<String>,
    pub frontend_port: Option<String>,
    pub api_port: Option<String>,
    pub localserver_port: Option<String>,
    pub enable_localserver: Option<String>,
    pub localserver_script: Option<String>,
}

/// The settings of a launch.
pub struct LauncherSettings {
    pub tapnow_dir: String,
    pub jimeng_dir: String,
    pub frontend_port: u16,
    pub api_port: u16,
    pub localserver_port: u16,
    pub enable_localserver: bool,
    /// The script named by the environment; where `None`, the launcher uses
    /// `localserver/tapnow-server-full.py` under the Tapnow directory.
    pub localserver_script: Option<String>,
}

pub open spec fn opt_view(o: Option<String>) -> Option<Seq<char>> {
    match o {
        Some(s) => Some(s@),
        None => None,
    }
}

/// The directory named by the environment, else the bundled one, else `default`.
pub open spec fn dir_setting(env: Option<String>, bundled: Option<String>, default: Seq<char>) -> Seq<char> {
    match env {
        Some(e) => e@,
        None => match bundled {
            Some(b) => b@,
            None => default,
        },
    }
}

fn choose_dir(env: &Option<String>, bundled: Option<String>, default: &str) -> (r: String)
    ensures
        r@ == dir_setting(*env, bundled, default@),
{
    match env {
        Some(e) => e.clone(),
        None => match bundled {
            Some(b) => b,
            None => String::from_str(default),
        },
    }
}

fn env_port_of(value: &Option<String>, default: u16) -> (r: u16)
    ensures
        r == port_setting(opt_view(*value), default),
{
    match value {
        Some(v) => env_port(Some(v.as_str()), default),
        None => env_port(None, default),
    }
}

impl LauncherSettings {
    /// Settings from the environment and from the runtime directories bundled beside
    /// the launcher, with the built-in defaults where neither says anything.
    pub fn resolve(env: &EnvValues, bundled_tapnow: Option<String>, bundled_jimeng: Option<String>) -> (r: LauncherSettings)
        ensures
            r.tapnow_dir@ == dir_setting(env.tapnow_dir, bundled_tapnow, DEFAULT_TAPNOW_STUDIO_DIR@),
            r.jimeng_dir@ == dir_setting(env.jimeng_dir, bundled_jimeng, DEFAULT_JIMENG_API_DIR@),
            r.frontend_port == port_setting(opt_view(env.frontend_port), DEFAULT_FRONTEND_PORT),
            r.api_port == port_setting(opt_view(env.api_port), DEFAULT_API_PORT),
            r.localserver_port == port_setting(opt_view(env.localserver_port), DEFAULT_LOCALSERVER_PORT),
            r.enable_localserver == flag_setting(opt_view(env.enable_localserver), true),
            r.localserver_script == env.localserver_script,
    {
        let enable = match &env.enable_localserver {
            Some(v) => env_bool(Some(v.as_str()), true),
            None => env_bool(None, true),
        };
        LauncherSettings {
            tapnow_dir: choose_dir(&env.tapnow_dir, bundled_tapnow, DEFAULT_TAPNOW_STUDIO_DIR),
            jimeng_dir: choose_dir(&env.jimeng_dir, bundled_jimeng, DEFAULT_JIMENG_API_DIR),
            frontend_port: env_port_of(&env.frontend_port, DEFAULT_FRONTEND_PORT),
            api_port: env_port_of(&env.api_port, DEFAULT_API_PORT),
            localserver_port: env_port_of(&env.localserver_port, DEFAULT_LOCALSERVER_PORT),
            enable_localserver: enable,
            localserver_script: env.localserver_script.clone(),
        }
    }
}

} // verus!
verus! {

/// A directory named by the environment is the one used, whatever is bundled; the
/// bundled one is used only where the environment names none, and the default only
/// where neither does.
pub proof fn lemma_environment_directory_wins(
    env: Option<String>,
    bundled: Option<String>,
    other_bundled: Option<String>,
    default: Seq<char>,
)
    ensures
        env matches Some(e) ==> dir_setting(env, bundled, default) == e@ && dir_setting(
            env,
            other_bundled,
            default,
        ) == e@,
        (env is None) ==> (bundled matches Some(b) ==> dir_setting(env, bundled, default) == b@),
        (env is None) && (bundled is None) ==> dir_setting(env, bundled, default) == default,
{
}

} // verus!
