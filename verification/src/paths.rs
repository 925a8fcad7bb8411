//! Canonical filesystem locations, derived from the XDG base directories.
//!
//! The environment is read by the caller; the functions here decide, from
//! the values read, which directory each kind of state lives in.

use vstd::prelude::*;

use crate::config::spec_join;

verus! {

/// The three XDG base directories every location is derived from.
#[derive(Debug, Clone)]
pub struct XdgDirs {
    pub config_home: String,
    pub data_home: String,
    pub cache_home: String,
}

/// `dir/a/b`, joined as `Path::join` joins relative components.
pub open spec fn join2(dir: Seq<char>, a: Seq<char>, b: Seq<char>) -> Seq<char> {
    spec_join(spec_join(dir, a), b)
}

/// Join two relative components onto `dir`.
pub fn join_two(dir: &str, a: &str, b: &str) -> (r: String)
    ensures
        r@ == join2(dir@, a@, b@),
{
    let d = crate::strs::chars_of(dir);
    let first = crate::config::join_path(&d, a);
    let f = crate::strs::chars_of(first.as_str());
    crate::config::join_path(&f, b)
}

/// An XDG base directory: the variable's value when it is set, otherwise the
/// fallback under the home directory.
pub open spec fn xdg_dir(var: Option<Seq<char>>, fallback: Seq<char>) -> Seq<char> {
    match var {
        Some(v) => v,
        None => fallback,
    }
}

fn pick(var: Option<String>, fallback: String) -> (r: String)
    ensures
        r@ == xdg_dir(
            match var {
                Some(v) => Some(v@),
                None => None,
            },
            fallback@,
        ),
{
    match var {
        Some(v) => v,
        None => fallback,
    }
}

/// The view of an optional string.
pub open spec fn opt_view(o: Option<String>) -> Option<Seq<char>> {
    match o {
        Some(v) => Some(v@),
        None => None,
    }
}

/// `$XDG_CONFIG_HOME`, or `~/.config`.
pub fn xdg_config_home(var: Option<String>, home: &str) -> (r: String)
    ensures
        r@ == xdg_dir(opt_view(var), spec_join(home@, ".config"@)),
{
    let h = crate::strs::chars_of(home);
    pick(var, crate::config::join_path(&h, ".config"))
}

/// `$XDG_DATA_HOME`, or `~/.local/share`.
pub fn xdg_data_home(var: Option<String>, home: &str) -> (r: String)
    ensures
        r@ == xdg_dir(opt_view(var), join2(home@, ".local"@, "share"@)),
{
    pick(var, join_two(home, ".local", "share"))
}

/// `$XDG_CACHE_HOME`, or `~/.cache`.
pub fn xdg_cache_home(var: Option<String>, home: &str) -> (r: String)
    ensures
        r@ == xdg_dir(opt_view(var), spec_join(home@, ".cache"@)),
{
    let h = crate::strs::chars_of(home);
    pick(var, crate::config::join_path(&h, ".cache"))
}

impl XdgDirs {
    /// The base directories from the three variables (each `None` when
    /// unset) and the home directory.
    pub fn resolve(config: Option<String>, data: Option<String>, cache: Option<String>, home: &str) -> (r:
        XdgDirs)
        ensures
            r.config_home@ == xdg_dir(opt_view(config), spec_join(home@, ".config"@)),
            r.data_home@ == xdg_dir(opt_view(data), join2(home@, ".local"@, "share"@)),
            r.cache_home@ == xdg_dir(opt_view(cache), spec_join(home@, ".cache"@)),
    {
        XdgDirs {
            config_home: xdg_config_home(config, home),
            data_home: xdg_data_home(data, home),
            cache_home: xdg_cache_home(cache, home),
        }
    }
}

// ───────────────────────────── ntucool (api / cli / tui) ─────────────────────────────

/// `$XDG_CONFIG_HOME/ntucool/credentials.json`.
pub fn credentials_path(dirs: &XdgDirs) -> (r: String)
    ensures
        r@ == join2(dirs.config_home@, "ntucool"@, "credentials.json"@),
{
    join_two(dirs.config_home.as_str(), "ntucool", "credentials.json")
}

/// `$XDG_DATA_HOME/ntucool/session.json`.
pub fn session_path(dirs: &XdgDirs) -> (r: String)
    ensures
        r@ == join2(dirs.data_home@, "ntucool"@, "session.json"@),
{
    join_two(dirs.data_home.as_str(), "ntucool", "session.json")
}

/// `$XDG_CACHE_HOME/ntucool/courses.json`.
pub fn courses_cache_path(dirs: &XdgDirs) -> (r: String)
    ensures
        r@ == join2(dirs.cache_home@, "ntucool"@, "courses.json"@),
{
    join_two(dirs.cache_home.as_str(), "ntucool", "courses.json")
}

/// `$XDG_CACHE_HOME/ntucool/courses-all.json`.
pub fn all_enrolments_cache_path(dirs: &XdgDirs) -> (r: String)
    ensures
        r@ == join2(dirs.cache_home@, "ntucool"@, "courses-all.json"@),
{
    join_two(dirs.cache_home.as_str(), "ntucool", "courses-all.json")
}

// ───────────────────────────── cool-mcp ─────────────────────────────

/// `$XDG_CACHE_HOME/cool-mcp/cache`: downloaded file bytes.
pub fn mcp_files_cache_dir(dirs: &XdgDirs) -> (r: String)
    ensures
        r@ == join2(dirs.cache_home@, "cool-mcp"@, "cache"@),
{
    join_two(dirs.cache_home.as_str(), "cool-mcp", "cache")
}

/// `$XDG_CACHE_HOME/cool-mcp/text`: extracted PDF text.
pub fn mcp_text_cache_dir(dirs: &XdgDirs) -> (r: String)
    ensures
        r@ == join2(dirs.cache_home@, "cool-mcp"@, "text"@),
{
    join_two(dirs.cache_home.as_str(), "cool-mcp", "text")
}

/// `$XDG_DATA_HOME/cool-mcp/files`: files published to the client.
pub fn mcp_publish_dir(dirs: &XdgDirs) -> (r: String)
    ensures
        r@ == join2(dirs.data_home@, "cool-mcp"@, "files"@),
{
    join_two(dirs.data_home.as_str(), "cool-mcp", "files")
}

} // verus!
