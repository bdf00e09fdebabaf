//! Keeps the address of a WSL2 virtual machine in the Windows hosts file under
//! a set of host names.
//!
//! The crate holds the logic of that job: how the output of the address query
//! is read, how the lines of a hosts file are reconciled with the configured
//! names, and how the coordinator answers the requests of the user interface.
//! Everything that touches the machine (processes, files, windows) is left to
//! the caller, who hands in what it read and carries out what comes back.

pub mod cli;
pub mod config;
pub mod coordinator;
pub mod decode;
pub mod encoding;
pub mod error;
pub mod handoff;
pub mod hosts;
pub mod protocol;
pub mod resolver;
pub mod rewriting;
pub mod seqs;
pub mod settings;
pub mod text;
pub mod text_laws;

pub use config::{Access, Config, DEFAULT_HOST, DEFAULT_HOSTS_PATH};
pub use coordinator::{run, Action, Cmd, Coordinator, Event};
pub use error::{ConfigError, DiscoveryError, IoError};
pub use handoff::{find_writer, write_changes};
pub use hosts::clean_list;
pub use resolver::{find_wsl_distros, find_wsl_ip};
