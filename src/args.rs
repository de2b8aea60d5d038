use vstd::prelude::*;

verus! {

/// The command line, already parsed.
#[derive(Debug)]
pub struct Args {
    pub command: Commands,
    /// The configuration file, if one is given.
    pub config: Option<String>,
}

/// What the command line asks for.
#[derive(Debug)]
pub enum Commands {
    /// Load and print the configuration.
    TestConfig {},
    /// Manage one service.
    Service { service_name: String },
    /// Start or stop the daemon.
    Daemon { start: bool, stop: bool, no_fork: Option<bool>, wait: Option<bool> },
}

impl Args {
    /// Whether the daemon body runs in the calling process instead of a
    /// detached one.
    pub fn forking_disabled(&self) -> (r: bool)
        ensures
            r == match self.command {
                Commands::Daemon { no_fork, .. } => no_fork == Some(true),
                _ => false,
            },
    {
        match &self.command {
            Commands::Daemon { no_fork, .. } => match no_fork {
                Some(v) => *v,
                None => false,
            },
            _ => false,
        }
    }

    /// Whether the caller waits until the lock record is gone.
    pub fn waits(&self) -> (r: bool)
        ensures
            r == match self.command {
                Commands::Daemon { wait, .. } => wait == Some(true),
                _ => false,
            },
    {
        match &self.command {
            Commands::Daemon { wait, .. } => match wait {
                Some(v) => *v,
                None => false,
            },
            _ => false,
        }
    }
}

} // verus!
