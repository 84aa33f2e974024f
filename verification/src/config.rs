//! The daemon's configuration, its defaults and the rules on loading it.

use vstd::prelude::*;
use vstd::std_specs::convert::FromSpecImpl;
use vstd::string::StringExecFns;
use crate::monitor::ClipboardMonitorOptions;
use crate::paths::{
    join, joined, project_file, project_file_in, project_file_under, user_cache_dir,
    user_config_dir, DAEMON_CONFIG_NAME, DAEMON_HISTORY_FILE_NAME,
};

verus! {

/// The port that the control server listens on unless told otherwise.
pub const DEFAULT_GRPC_PORT: u16 = 45045;

/// The name of the daemon's pid file.
pub const DAEMON_PID_FILE_NAME: &'static str = "clipcatd.pid";

/// How much the daemon logs.
#[derive(Clone, Copy, Debug, PartialEq, Eq, Structural)]
pub enum LogLevel {
    Trace,
    Debug,
    Info,
    Warn,
    Error,
}

/// An IP address, by its parts: the four bytes of a version 4 address or the
/// eight 16-bit groups of a version 6 address.
#[derive(Clone, Copy, Debug, PartialEq, Eq, Structural)]
pub enum Host {
    V4(u8, u8, u8, u8),
    V6(u16, u16, u16, u16, u16, u16, u16, u16),
}

impl Host {
    /// The loopback address `127.0.0.1`, which the control server listens on
    /// unless told otherwise.
    pub open spec fn spec_loopback() -> Host {
        Host::V4(127, 0, 0, 1)
    }

    /// The loopback address `127.0.0.1`.
    #[verifier::when_used_as_spec(spec_loopback)]
    pub fn loopback() -> (host: Host)
        ensures
            host == Host::spec_loopback(),
    {
        Host::V4(127, 0, 0, 1)
    }
}

/// The monitor's part of the configuration.
#[derive(Clone, Copy, Debug, PartialEq, Eq, Structural)]
pub struct Monitor {
    pub load_current: bool,
    pub enable_clipboard: bool,
    pub enable_primary: bool,
    pub filter_min_size: usize,
}

impl Default for Monitor {
    fn default() -> (monitor: Monitor)
        ensures
            monitor == (Monitor {
                load_current: true,
                enable_clipboard: true,
                enable_primary: true,
                filter_min_size: 0,
            }),
    {
        Monitor {
            load_current: true,
            enable_clipboard: true,
            enable_primary: true,
            filter_min_size: 0,
        }
    }
}

impl From<Monitor> for ClipboardMonitorOptions {
    fn from(val: Monitor) -> (options: ClipboardMonitorOptions) {
        let Monitor { load_current, enable_clipboard, enable_primary, filter_min_size } = val;
        ClipboardMonitorOptions { load_current, enable_clipboard, enable_primary, filter_min_size }
    }
}

impl FromSpecImpl<Monitor> for ClipboardMonitorOptions {
    open spec fn obeys_from_spec() -> bool {
        true
    }

    open spec fn from_spec(val: Monitor) -> ClipboardMonitorOptions {
        ClipboardMonitorOptions {
            load_current: val.load_current,
            enable_clipboard: val.enable_clipboard,
            enable_primary: val.enable_primary,
            filter_min_size: val.filter_min_size,
        }
    }
}

/// Where the control server listens.
#[derive(Clone, Copy, Debug, PartialEq, Eq, Structural)]
pub struct Grpc {
    pub host: Host,
    pub port: u16,
}

impl Default for Grpc {
    fn default() -> (grpc: Grpc)
        ensures
            grpc == (Grpc { host: Host::spec_loopback(), port: DEFAULT_GRPC_PORT }),
    {
        Grpc { host: Host::loopback(), port: DEFAULT_GRPC_PORT }
    }
}

/// Why the configuration could not be loaded.
#[derive(Clone, Debug, PartialEq, Eq)]
pub enum ConfigError {
    /// The file could not be read; `source` says why.
    OpenConfig { filename: String, source: String },
    /// The file is not a configuration; `source` says why.
    ParseConfig { filename: String, source: String },
}

impl ConfigError {
    /// What the message of an error says, given the file and the reason.
    pub open spec fn spec_message(self) -> Seq<char> {
        match self {
            ConfigError::OpenConfig { filename, source } => "Could not open config from "@
                + filename@ + ": "@ + source@,
            ConfigError::ParseConfig { filename, source } => "Could not parse config from "@
                + filename@ + ": "@ + source@,
        }
    }

    /// The message of the error, for the user.
    pub fn message(&self) -> (text: String)
        ensures
            text@ == self.spec_message(),
    {
        match self {
            ConfigError::OpenConfig { filename, source } => {
                let mut text = String::from_str("Could not open config from ");
                text.append(filename.as_str());
                text.append(": ");
                text.append(source.as_str());
                text
            },
            ConfigError::ParseConfig { filename, source } => {
                let mut text = String::from_str("Could not parse config from ");
                text.append(filename.as_str());
                text.append(": ");
                text.append(source.as_str());
                text
            },
        }
    }
}

/// The daemon's configuration.
#[derive(Clone, Debug, PartialEq, Eq)]
pub struct Config {
    pub daemonize: bool,
    pub pid_file: String,
    /// The capacity of the history; at least 1 once loaded.
    pub max_history: usize,
    pub history_file_path: String,
    pub log_level: LogLevel,
    pub monitor: Monitor,
    pub grpc: Grpc,
}

impl Config {
    /// The configuration that the daemon runs with where no file says
    /// otherwise, given the two paths that depend on the user's environment.
    pub fn with_paths(pid_file: String, history_file_path: String) -> (config: Config)
        ensures
            config == (Config {
                daemonize: true,
                pid_file,
                max_history: 50,
                history_file_path,
                log_level: LogLevel::Info,
                monitor: Monitor {
                    load_current: true,
                    enable_clipboard: true,
                    enable_primary: true,
                    filter_min_size: 0,
                },
                grpc: Grpc { host: Host::spec_loopback(), port: DEFAULT_GRPC_PORT },
            }),
    {
        Config {
            daemonize: true,
            pid_file,
            max_history: Config::default_max_history(),
            history_file_path,
            log_level: Config::default_log_level(),
            monitor: Monitor::default(),
            grpc: Grpc::default(),
        }
    }

    /// The path of the daemon's configuration file under a configuration
    /// directory.
    pub fn path_in(config_dir: &str) -> (path: String)
        ensures
            path@ == project_file(config_dir@, DAEMON_CONFIG_NAME@),
    {
        project_file_in(config_dir, DAEMON_CONFIG_NAME)
    }

    /// The path of the daemon's configuration file under the user's
    /// configuration directory; none where that directory cannot be
    /// determined.
    pub fn default_path() -> (path: Option<String>)
        ensures
            path matches Some(p) ==> exists|dir: Seq<char>|
                p@ == project_file(dir, DAEMON_CONFIG_NAME@),
    {
        let config_dir = user_config_dir();
        let path = project_file_under(config_dir, DAEMON_CONFIG_NAME);
        assert(config_dir matches Some(dir) ==> path matches Some(p) && p@ == project_file(
            dir@,
            DAEMON_CONFIG_NAME@,
        ));
        path
    }

    /// The level that the daemon logs at unless told otherwise.
    pub fn default_log_level() -> (level: LogLevel)
        ensures
            level == LogLevel::Info,
    {
        LogLevel::Info
    }

    /// The path of the history file under a cache directory.
    pub fn history_file_path_in(cache_dir: &str) -> (path: String)
        ensures
            path@ == project_file(cache_dir@, DAEMON_HISTORY_FILE_NAME@),
    {
        project_file_in(cache_dir, DAEMON_HISTORY_FILE_NAME)
    }

    /// The path of the history file under the user's cache directory; none
    /// where that directory cannot be determined.
    pub fn default_history_file_path() -> (path: Option<String>)
        ensures
            path matches Some(p) ==> exists|dir: Seq<char>|
                p@ == project_file(dir, DAEMON_HISTORY_FILE_NAME@),
    {
        let cache_dir = user_cache_dir();
        let path = project_file_under(cache_dir, DAEMON_HISTORY_FILE_NAME);
        assert(cache_dir matches Some(dir) ==> path matches Some(p) && p@ == project_file(
            dir@,
            DAEMON_HISTORY_FILE_NAME@,
        ));
        path
    }

    /// The capacity of the history unless told otherwise.
    pub fn default_max_history() -> (n: usize)
        ensures
            n == 50,
    {
        50
    }

    /// The path of the pid file: in the runtime directory where the
    /// environment names one, else in the directory for temporary files.
    pub fn default_pid_file_path(runtime_dir: Option<String>, temp_dir: String) -> (path: String)
        ensures
            path@ == joined(
                match runtime_dir {
                    Some(dir) => dir@,
                    None => temp_dir@,
                },
                DAEMON_PID_FILE_NAME@,
            ),
    {
        match runtime_dir {
            Some(dir) => join(dir.as_str(), DAEMON_PID_FILE_NAME),
            None => join(temp_dir.as_str(), DAEMON_PID_FILE_NAME),
        }
    }

    /// What loading makes of the configuration that was read and parsed: a
    /// capacity of 0 is replaced by the default capacity, and nothing else is
    /// changed.
    pub fn load(parsed: Config) -> (loaded: Config)
        ensures
            loaded == (Config {
                max_history: if parsed.max_history == 0 {
                    50
                } else {
                    parsed.max_history
                },
                ..parsed
            }),
            loaded.max_history >= 1,
    {
        let mut config = parsed;
        if config.max_history == 0 {
            config.max_history = Config::default_max_history();
        }
        config
    }
}

} // verus!
