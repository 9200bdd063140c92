//! The command line of the proxy, and how it logs.
use vstd::prelude::*;

verus! {

/// The command line: a debug level and a command.
#[derive(Debug, Clone)]
pub struct Cli {
    /// Turn debugging information on (once per level)
    pub debug: u8,
    pub command: Commands,
}

/// The commands of the proxy.
#[derive(Debug, Clone)]
pub enum Commands {
    /// Starts the server on a port, with the configuration in a file
    Start { port: u16, file: String },
    /// Stops the server on a port
    Stop { port: u16 },
    /// Pulls an integration, `NAME[:TAG]`
    Pull { name: String },
}

/// The port a command uses when none is given.
pub open spec fn default_port() -> u16 {
    8080
}

impl Commands {
    /// The port the command acts on, if it acts on one.
    pub fn port(&self) -> (r: Option<u16>)
        ensures
            match self {
                Commands::Start { port, .. } => r == Some(*port),
                Commands::Stop { port } => r == Some(*port),
                Commands::Pull { .. } => r is None,
            },
    {
        match self {
            Commands::Start { port, .. } => Some(*port),
            Commands::Stop { port } => Some(*port),
            Commands::Pull { .. } => None,
        }
    }
}

/// How log lines are written.
#[derive(Debug, Clone, Copy, PartialEq, Eq, Structural)]
pub enum LogFormat {
    Basic,
    Pretty,
    Json,
}

impl LogFormat {
    /// The format used when none is chosen: plain lines in a debug build, JSON
    /// in a release build.
    pub fn default_for(debug_build: bool) -> (r: LogFormat)
        ensures
            debug_build ==> r == LogFormat::Basic,
            !debug_build ==> r == LogFormat::Json,
    {
        if debug_build {
            LogFormat::Basic
        } else {
            LogFormat::Json
        }
    }
}

} // verus!
