//! File-system paths, written as text, and where the settings file lives.
use vstd::prelude::*;

use crate::text::{chars_of, push_chars, starts_with};

verus! {

/// `dir` joined with `name` the way `PathBuf::join` does it on Unix: an
/// absolute `name` replaces `dir`; otherwise a `/` goes between them unless
/// `dir` is empty or already ends with one.
pub open spec fn join(dir: Seq<char>, name: Seq<char>) -> Seq<char> {
    if starts_with(name, "/"@) {
        name
    } else if dir.len() == 0 || dir.last() == '/' {
        dir + name
    } else {
        dir + "/"@ + name
    }
}

/// Joins `name` onto `dir`.
pub fn join_path(dir: &str, name: &str) -> (r: String)
    ensures
        r@ == join(dir@, name@),
{
    let nc = chars_of(name);
    if nc.len() > 0 && nc[0] == '/' {
        proof {
            reveal_strlit("/");
            assert(name@.subrange(0, 1) =~= "/"@);
        }
        return name.to_owned();
    }
    proof {
        reveal_strlit("/");
        if name@.len() > 0 {
            assert(name@.subrange(0, 1)[0] == name@[0]);
        }
    }
    let dc = chars_of(dir);
    let mut r = dir.to_owned();
    if dc.len() > 0 && dc[dc.len() - 1] != '/' {
        push_chars(&mut r, &chars_of("/"));
    }
    push_chars(&mut r, &nc);
    r
}

/// The settings file inside the configuration directory.
pub open spec fn settings_path(config_dir: Seq<char>) -> Seq<char> {
    join(config_dir, "settings.json"@)
}

/// Where the settings file lives, given the application's configuration
/// directory.
pub fn settings_file(config_dir: &str) -> (r: String)
    ensures
        r@ == settings_path(config_dir@),
{
    join_path(config_dir, "settings.json")
}


/// The application's directory inside a base directory (`.` when the base
/// is unknown).
pub open spec fn app_dir_path(base: Option<Seq<char>>) -> Seq<char> {
    join(
        match base {
            Some(b) => b,
            None => "."@,
        },
        "qwen-studio-linux"@,
    )
}

/// The application's directory inside `base` (the current directory when
/// there is none).
pub fn app_dir_for(base: Option<&str>) -> (r: String)
    ensures
        r@ == app_dir_path(crate::text::opt_str_text(base)),
{
    match base {
        Some(b) => join_path(b, "qwen-studio-linux"),
        None => join_path(".", "qwen-studio-linux"),
    }
}

/// Calls `dirs::config_dir` and renders the path as text (lossily).
/// Trusted.  Which directory comes back depends on the environment of the
/// process and is left unstated; a directory found is never empty: dirs
/// 7.0.0 (`src/lin.rs`) takes `XDG_CONFIG_HOME` only when it is an absolute
/// path, else the home directory (never empty) joined with `.config`, and
/// the lossy rendering keeps a non-empty path non-empty.
#[verifier::external_body]
fn config_dir_text() -> (r: Option<String>)
    ensures
        r matches Some(p) ==> p@.len() > 0,
{
    dirs::config_dir().map(|p| p.to_string_lossy().to_string())
}

/// Calls `dirs::data_local_dir` and renders the path as text (lossily).
/// Trusted.  Which directory comes back depends on the environment of the
/// process and is left unstated; a directory found is never empty: dirs
/// 7.0.0 (`src/lin.rs`) takes `XDG_DATA_HOME` only when it is an absolute
/// path, else the home directory (never empty) joined with `.local/share`,
/// and the lossy rendering keeps a non-empty path non-empty.
#[verifier::external_body]
fn data_local_dir_text() -> (r: Option<String>)
    ensures
        r matches Some(p) ==> p@.len() > 0,
{
    dirs::data_local_dir().map(|p| p.to_string_lossy().to_string())
}

/// The application's configuration directory for the current user (the
/// caller creates it).
pub fn config_dir() -> (r: String)
    ensures
        exists|base: Option<Seq<char>>|
            (base matches Some(b) ==> b.len() > 0) && r@ == #[trigger] app_dir_path(base),
{
    let base = config_dir_text();
    match base {
        Some(b) => app_dir_for(Some(b.as_str())),
        None => app_dir_for(None),
    }
}

/// The application's local data directory for the current user (the caller
/// creates it).
pub fn data_dir() -> (r: String)
    ensures
        exists|base: Option<Seq<char>>|
            (base matches Some(b) ==> b.len() > 0) && r@ == #[trigger] app_dir_path(base),
{
    let base = data_local_dir_text();
    match base {
        Some(b) => app_dir_for(Some(b.as_str())),
        None => app_dir_for(None),
    }
}

/// The directory of crash reports inside the application's data directory.
pub open spec fn crash_dir_path(data_dir: Seq<char>) -> Seq<char> {
    join(data_dir, "crash-logs"@)
}

/// The directory of crash reports, given the application's data directory.
pub fn crash_log_dir(data_dir: &str) -> (r: String)
    ensures
        r@ == crash_dir_path(data_dir@),
{
    join_path(data_dir, "crash-logs")
}
} // verus!
