//! Where the application keeps its data: one directory under the user's
//! data directory, with a subdirectory per kind of content.
use vstd::prelude::*;

use crate::asr_catalog::{join_path, path_join};

verus! {

/// The application's data root, given what the platform reports as the
/// user's data directory (the working directory when it reports none).
pub open spec fn app_root(data_dir: Option<Seq<char>>) -> Seq<char> {
    path_join(
        match data_dir {
            Some(d) => d,
            None => "."@,
        },
        "prism-agent"@,
    )
}

/// The user's data directory, as the platform reports it.
///
/// Trusted: calls `dirs::data_dir`, which reads the environment
/// (`XDG_DATA_HOME`, else `$HOME/.local/share` on Linux); nothing is claimed
/// of what it returns.
#[verifier::external_body]
fn platform_data_dir() -> (r: Option<String>) {
    dirs::data_dir().map(|p| p.to_string_lossy().into_owned())
}

/// The application's data root under the given data directory.
pub fn app_data_dir_from(data_dir: Option<&str>) -> (r: String)
    ensures
        r@ == app_root(
            match data_dir {
                Some(d) => Some(d@),
                None => None,
            },
        ),
{
    proof {
        reveal_strlit(".");
    }
    match data_dir {
        Some(d) => join_path(d, "prism-agent"),
        None => join_path(".", "prism-agent"),
    }
}

/// The application's data root.
pub fn app_data_dir() -> (r: String)
    ensures
        exists|d: Option<Seq<char>>| r@ == #[trigger] app_root(d),
{
    let d = platform_data_dir();
    match d {
        Some(s) => {
            let r = app_data_dir_from(Some(s.as_str()));
            assert(r@ == app_root(Some(s@)));
            r
        },
        None => {
            let r = app_data_dir_from(None);
            assert(r@ == app_root(None));
            r
        },
    }
}

/// A subdirectory of the data root.
fn data_subdir(name: &str) -> (r: String)
    ensures
        exists|d: Option<Seq<char>>| r@ == path_join(#[trigger] app_root(d), name@),
{
    let root = app_data_dir();
    let r = join_path(root.as_str(), name);
    r
}

/// The wiki directory.
pub fn wiki_dir() -> (r: String)
    ensures
        exists|d: Option<Seq<char>>| r@ == path_join(#[trigger] app_root(d), "wiki"@),
{
    data_subdir("wiki")
}

/// The skills directory.
pub fn skill_dir() -> (r: String)
    ensures
        exists|d: Option<Seq<char>>| r@ == path_join(#[trigger] app_root(d), "skills"@),
{
    data_subdir("skills")
}

/// The memory directory.
pub fn memory_dir() -> (r: String)
    ensures
        exists|d: Option<Seq<char>>| r@ == path_join(#[trigger] app_root(d), "memory"@),
{
    data_subdir("memory")
}

/// The log directory.
pub fn log_dir() -> (r: String)
    ensures
        exists|d: Option<Seq<char>>| r@ == path_join(#[trigger] app_root(d), "logs"@),
{
    data_subdir("logs")
}

/// The meeting recordings directory.
pub fn meetings_dir() -> (r: String)
    ensures
        exists|d: Option<Seq<char>>| r@ == path_join(#[trigger] app_root(d), "meetings"@),
{
    data_subdir("meetings")
}

} // verus!
