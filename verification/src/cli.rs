//! The options of the capture program and what they ask for.

use vstd::prelude::*;

verus! {

/// The options as parsed from the command line.
#[derive(Debug)]
pub struct Cli {
    /// Query all the interfaces.
    pub extcap_interfaces: bool,
    /// Version of the host analyzer.
    pub extcap_version: String,
    /// The interface that was selected.
    pub extcap_interface: String,
    /// Query the link types of an interface.
    pub extcap_dtls: bool,
    /// Query the configuration of an interface.
    pub extcap_config: bool,
    /// Start capturing.
    pub capture: bool,
    /// The capture filter.
    pub extcap_capture_filter: String,
    /// The sink: a path, or standard output without one.
    pub fifo: Option<String>,
    /// The channels to listen on.
    pub channels: Vec<String>,
}

/// What one run of the program does.
#[derive(Clone, Copy, Debug, PartialEq, Eq, Structural)]
pub enum Command {
    /// List the interfaces.
    Interfaces,
    /// List the link types.
    Dlts,
    /// List the options.
    Config,
    /// Capture until stopped.
    Capture,
    /// Nothing was asked for.
    Nothing,
}

/// The command that the options ask for: of the four requests the first that
/// is set, in the order interfaces, link types, configuration, capture.
pub open spec fn command_of(cli: Cli) -> Command {
    if cli.extcap_interfaces {
        Command::Interfaces
    } else if cli.extcap_dtls {
        Command::Dlts
    } else if cli.extcap_config {
        Command::Config
    } else if cli.capture {
        Command::Capture
    } else {
        Command::Nothing
    }
}

impl Cli {
    /// Picks the command to run.
    pub fn command(&self) -> (c: Command)
        ensures
            c == command_of(*self),
    {
        if self.extcap_interfaces {
            Command::Interfaces
        } else if self.extcap_dtls {
            Command::Dlts
        } else if self.extcap_config {
            Command::Config
        } else if self.capture {
            Command::Capture
        } else {
            Command::Nothing
        }
    }
}

} // verus!
