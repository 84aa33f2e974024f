//! The menu's configuration and its defaults.

use vstd::prelude::*;
use vstd::string::StringExecFns;
use crate::config::{Host, DEFAULT_GRPC_PORT};
use crate::paths::{
    project_file, project_file_in, project_file_under, user_config_dir, MENU_CONFIG_NAME,
};

verus! {

/// The program that lets the user pick a clip.
#[derive(Clone, Copy, Debug, PartialEq, Eq, Structural)]
pub enum FinderType {
    Rofi,
    Dmenu,
    Skim,
    Custom,
}

/// How `rofi` shows the clips.
#[derive(Clone, Copy, Debug, PartialEq, Eq, Structural)]
pub struct Rofi {
    pub line_length: usize,
    pub menu_length: usize,
}

/// How `dmenu` shows the clips.
#[derive(Clone, Copy, Debug, PartialEq, Eq, Structural)]
pub struct Dmenu {
    pub line_length: usize,
    pub menu_length: usize,
}

/// A finder of the user's own: the program and its arguments.
#[derive(Clone, Debug, PartialEq, Eq)]
pub struct CustomFinder {
    pub program: String,
    pub args: Vec<String>,
}

impl Default for Rofi {
    fn default() -> (rofi: Rofi)
        ensures
            rofi == (Rofi { line_length: 100, menu_length: 30 }),
    {
        Rofi { line_length: 100, menu_length: 30 }
    }
}

impl Default for Dmenu {
    fn default() -> (dmenu: Dmenu)
        ensures
            dmenu == (Dmenu { line_length: 100, menu_length: 30 }),
    {
        Dmenu { line_length: 100, menu_length: 30 }
    }
}

impl CustomFinder {
    /// Whether this is the finder used where none is configured: `fzf`
    /// without arguments.
    pub open spec fn is_default(self) -> bool {
        &&& self.program@ == "fzf"@
        &&& self.args@.len() == 0
    }
}

impl Default for CustomFinder {
    fn default() -> (finder: CustomFinder)
        ensures
            finder.is_default(),
    {
        CustomFinder { program: String::from_str("fzf"), args: Vec::new() }
    }
}

/// The menu's configuration.
#[derive(Clone, Debug, PartialEq, Eq)]
pub struct Config {
    pub server_host: Host,
    pub server_port: u16,
    pub finder: FinderType,
    pub rofi: Option<Rofi>,
    pub dmenu: Option<Dmenu>,
    pub custom_finder: Option<CustomFinder>,
}

impl Config {
    /// Whether this is the configuration used where none is loaded.
    pub open spec fn is_default(self) -> bool {
        &&& self.server_host == Host::spec_loopback()
        &&& self.server_port == DEFAULT_GRPC_PORT
        &&& self.finder == FinderType::Rofi
        &&& self.rofi == Some(Rofi { line_length: 100, menu_length: 30 })
        &&& self.dmenu == Some(Dmenu { line_length: 100, menu_length: 30 })
        &&& self.custom_finder matches Some(finder) && finder.is_default()
    }

    /// The path of the menu's configuration file under a configuration
    /// directory.
    pub fn path_in(config_dir: &str) -> (path: String)
        ensures
            path@ == project_file(config_dir@, MENU_CONFIG_NAME@),
    {
        project_file_in(config_dir, MENU_CONFIG_NAME)
    }

    /// The path of the menu's configuration file under the user's
    /// configuration directory; none where that directory cannot be
    /// determined.
    pub fn default_path() -> (path: Option<String>)
        ensures
            path matches Some(p) ==> exists|dir: Seq<char>|
                p@ == project_file(dir, MENU_CONFIG_NAME@),
    {
        let config_dir = user_config_dir();
        let path = project_file_under(config_dir, MENU_CONFIG_NAME);
        assert(config_dir matches Some(dir) ==> path matches Some(p) && p@ == project_file(
            dir@,
            MENU_CONFIG_NAME@,
        ));
        path
    }

    /// The configuration that was loaded, or the default one where loading
    /// failed.
    pub fn load_or_default(loaded: Option<Config>) -> (config: Config)
        ensures
            match loaded {
                Some(read) => config == read,
                None => config.is_default(),
            },
    {
        match loaded {
            Some(config) => config,
            None => Config::default(),
        }
    }
}

impl Default for Config {
    fn default() -> (config: Config)
        ensures
            config.is_default(),
    {
        Config {
            server_host: Host::loopback(),
            server_port: DEFAULT_GRPC_PORT,
            finder: FinderType::Rofi,
            rofi: Some(Rofi::default()),
            dmenu: Some(Dmenu::default()),
            custom_finder: Some(CustomFinder::default()),
        }
    }
}

} // verus!
