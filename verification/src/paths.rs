//! Names and places of the files of the daemon and of the menu.

use vstd::prelude::*;
use vstd::string::{StrSliceExecFns, StringExecFns};

verus! {

/// The directory, under the user's directories, that holds the project's
/// files.
pub const PROJECT_NAME: &'static str = "clipcat";

/// The name of the daemon's program.
pub const DAEMON_PROGRAM_NAME: &'static str = "clipcatd";

/// The name of the daemon's configuration file.
pub const DAEMON_CONFIG_NAME: &'static str = "clipcatd.toml";

/// The name of the daemon's history file.
pub const DAEMON_HISTORY_FILE_NAME: &'static str = "clipcatd-history";

/// The name of the menu's configuration file.
pub const MENU_CONFIG_NAME: &'static str = "clipcat-menu.toml";

/// The path of `name` under `base`: the two joined by one `/`, which is left
/// out where `base` is empty or ends in one already.
pub open spec fn joined(base: Seq<char>, name: Seq<char>) -> Seq<char> {
    if base.len() == 0 || base.last() == '/' {
        base + name
    } else {
        base + seq!['/'] + name
    }
}

/// The path of the file `file` in the project's directory under `base`.
pub open spec fn project_file(base: Seq<char>, file: Seq<char>) -> Seq<char> {
    joined(joined(base, PROJECT_NAME@), file)
}

/// The path of `name` under `base`.
pub fn join(base: &str, name: &str) -> (path: String)
    ensures
        path@ == joined(base@, name@),
{
    let n = base.unicode_len();
    let mut path = String::from_str(base);
    if n > 0 && base.get_char(n - 1) != '/' {
        proof {
            reveal_strlit("/");
        }
        path.append("/");
        assert("/"@ =~= seq!['/']);
    }
    path.append(name);
    path
}

/// The path of the file `file` in the project's directory under `base`.
pub fn project_file_in(base: &str, file: &str) -> (path: String)
    ensures
        path@ == project_file(base@, file@),
{
    let directory = join(base, PROJECT_NAME);
    join(directory.as_str(), file)
}

/// The path of the file `file` in the project's directory under the user's
/// directory `base`, for whatever the search for that directory gave: the
/// path under the directory that was found, and none where none was found.
pub fn project_file_under(base: Option<String>, file: &str) -> (path: Option<String>)
    ensures
        match base {
            Some(dir) => path matches Some(p) && p@ == project_file(dir@, file@),
            None => path is None,
        },
{
    match base {
        Some(dir) => Some(project_file_in(dir.as_str(), file)),
        None => None,
    }
}

/// `directories::BaseDirs::new` and `BaseDirs::config_dir`: the user's
/// configuration directory, as the environment and the user database give it.
/// Nothing is claimed of the result: there is none where no home directory is
/// found, or where the path is not UTF-8.
#[verifier::external_body]
pub(crate) fn user_config_dir() -> (dir: Option<String>) {
    match directories::BaseDirs::new() {
        Some(dirs) => dirs.config_dir().to_str().map(str::to_owned),
        None => None,
    }
}

/// `directories::BaseDirs::new` and `BaseDirs::cache_dir`: the user's cache
/// directory, as the environment and the user database give it. Nothing is
/// claimed of the result: there is none where no home directory is found, or
/// where the path is not UTF-8.
#[verifier::external_body]
pub(crate) fn user_cache_dir() -> (dir: Option<String>) {
    match directories::BaseDirs::new() {
        Some(dirs) => dirs.cache_dir().to_str().map(str::to_owned),
        None => None,
    }
}

} // verus!
