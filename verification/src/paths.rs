//! The application's names and the places it keeps its files, found from
//! the environment the way the XDG base directories say.
use vstd::prelude::*;

use crate::text::{push_str, string_from_chars};

verus! {

/// The application id on the desktop bus and in the compositor.
pub const APP_ID: &'static str = "io.github.pkayokay.omapaste";

/// The application's name, also the name of its directories.
pub const APP_NAME: &'static str = "omapaste";

/// The released version.
pub const VERSION: &'static str = "0.2.1";

/// Where problems are reported.
pub const ISSUES_URL: &'static str = "https://github.com/pkayokay/omapaste/issues";

/// The environment variables the paths depend on.
pub struct PathEnv {
    pub home: Option<String>,
    pub userprofile: Option<String>,
    pub xdg_config_home: Option<String>,
    pub xdg_data_home: Option<String>,
    pub xdg_runtime_dir: Option<String>,
}

/// `rel` (a relative path) below `base`, with one separator between them.
pub open spec fn join(base: Seq<char>, rel: Seq<char>) -> Seq<char> {
    if base.len() == 0 {
        rel
    } else if base.last() == '/' {
        base + rel
    } else {
        base + seq!['/'] + rel
    }
}

/// `rel` (a relative path) below `base`.
pub fn path_join(base: &str, rel: &str) -> (r: String)
    ensures
        r@ == join(base@, rel@),
{
    let b = crate::text::chars_of(base);
    let mut out: Vec<char> = Vec::new();
    push_str(&mut out, base);
    if b.len() > 0 && b[b.len() - 1] != '/' {
        out.push('/');
    }
    push_str(&mut out, rel);
    string_from_chars(&out)
}

/// The value of a variable, when set.
pub open spec fn var(v: Option<String>) -> Option<Seq<char>> {
    crate::clip::opt_view(v)
}

/// The home directory: `HOME`, else `USERPROFILE`, else `/tmp`.
pub open spec fn home_spec(env: PathEnv) -> Seq<char> {
    match var(env.home) {
        Some(h) => h,
        None => match var(env.userprofile) {
            Some(u) => u,
            None => "/tmp"@,
        },
    }
}

/// `XDG_CONFIG_HOME`, else `~/.config`.
pub open spec fn config_home_spec(env: PathEnv) -> Seq<char> {
    match var(env.xdg_config_home) {
        Some(c) => c,
        None => join(home_spec(env), ".config"@),
    }
}

/// `XDG_DATA_HOME`, else `~/.local/share`.
pub open spec fn data_home_spec(env: PathEnv) -> Seq<char> {
    match var(env.xdg_data_home) {
        Some(d) => d,
        None => join(home_spec(env), ".local/share"@),
    }
}

/// The home directory.
pub fn home(env: &PathEnv) -> (r: String)
    ensures
        r@ == home_spec(*env),
{
    match &env.home {
        Some(h) => h.clone(),
        None => match &env.userprofile {
            Some(u) => u.clone(),
            None => "/tmp".to_owned(),
        },
    }
}

/// The base directory for settings.
pub fn xdg_config_home(env: &PathEnv) -> (r: String)
    ensures
        r@ == config_home_spec(*env),
{
    match &env.xdg_config_home {
        Some(c) => c.clone(),
        None => path_join(home(env).as_str(), ".config"),
    }
}

/// The base directory for data.
pub fn xdg_data_home(env: &PathEnv) -> (r: String)
    ensures
        r@ == data_home_spec(*env),
{
    match &env.xdg_data_home {
        Some(d) => d.clone(),
        None => path_join(home(env).as_str(), ".local/share"),
    }
}

/// The application's settings directory.
pub fn config_dir(env: &PathEnv) -> (r: String)
    ensures
        r@ == join(config_home_spec(*env), "omapaste"@),
{
    path_join(xdg_config_home(env).as_str(), APP_NAME)
}

/// The application's data directory.
pub fn data_dir(env: &PathEnv) -> (r: String)
    ensures
        r@ == join(data_home_spec(*env), "omapaste"@),
{
    path_join(xdg_data_home(env).as_str(), APP_NAME)
}

/// The settings file.
pub fn config_path(env: &PathEnv) -> (r: String)
    ensures
        r@ == join(join(config_home_spec(*env), "omapaste"@), "config.toml"@),
{
    path_join(config_dir(env).as_str(), "config.toml")
}

/// The history database.
pub fn db_path(env: &PathEnv) -> (r: String)
    ensures
        r@ == join(join(data_home_spec(*env), "omapaste"@), "history.sqlite"@),
{
    path_join(data_dir(env).as_str(), "history.sqlite")
}

/// The directory of image clips.
pub fn images_dir(env: &PathEnv) -> (r: String)
    ensures
        r@ == join(join(data_home_spec(*env), "omapaste"@), "images"@),
{
    path_join(data_dir(env).as_str(), "images")
}

/// The directory of runtime files: below `XDG_RUNTIME_DIR`, else in the
/// data directory.
pub fn runtime_dir(env: &PathEnv) -> (r: String)
    ensures
        r@ == match var(env.xdg_runtime_dir) {
            Some(d) => join(d, "omapaste"@),
            None => join(join(data_home_spec(*env), "omapaste"@), "runtime"@),
        },
{
    match &env.xdg_runtime_dir {
        Some(d) => path_join(d.as_str(), APP_NAME),
        None => path_join(data_dir(env).as_str(), "runtime"),
    }
}

/// The directory of the current Omarchy theme.
pub fn omarchy_theme_dir(env: &PathEnv) -> (r: String)
    ensures
        r@ == join(home_spec(*env), ".local/state/omarchy/current/theme"@),
{
    path_join(home(env).as_str(), ".local/state/omarchy/current/theme")
}

/// The file naming the current Omarchy theme.
pub fn omarchy_theme_name_path(env: &PathEnv) -> (r: String)
    ensures
        r@ == join(home_spec(*env), ".local/state/omarchy/current/theme.name"@),
{
    path_join(home(env).as_str(), ".local/state/omarchy/current/theme.name")
}

/// The files whose changes reload the theme: its `colors.toml` and the
/// theme name file.
pub fn watch_paths(env: &PathEnv) -> (r: Vec<String>)
    ensures
        r@.len() == 2,
        r@[0]@ == join(join(home_spec(*env), ".local/state/omarchy/current/theme"@), "colors.toml"@),
        r@[1]@ == join(home_spec(*env), ".local/state/omarchy/current/theme.name"@),
{
    let mut r: Vec<String> = Vec::new();
    r.push(path_join(omarchy_theme_dir(env).as_str(), "colors.toml"));
    r.push(omarchy_theme_name_path(env));
    r
}

} // verus!
