//! The core of a clipboard history daemon: the bounded history of clips, the
//! layout of the history file, the monitor's filtering, the decisions of the
//! pipeline, of the control server and of the supervisor, and the
//! configuration with its defaults.

pub mod clip;
pub mod config;
pub mod history;
pub mod manager;
pub mod menu;
pub mod monitor;
pub mod paths;
pub mod pipeline;
pub mod rpc;
pub mod supervisor;
