//! The command line of the program: its subcommands and their options.

use vstd::prelude::*;

verus! {

/// What the program is asked to do.
#[derive(Debug, Clone, PartialEq, Eq)]
pub enum Commands {
    /// First-time system setup; `force` redoes what is already configured.
    Setup { force: bool },
    /// Run the application and its web server on `host:port`.
    Run { port: u16, host: String },
    /// Remove everything the setup created.
    Cleanup,
    /// Show system and connection information.
    Info { verbose: bool },
    /// Test the controller for `duration` seconds (0: manual) in `mode`.
    Test { duration: u16, mode: String },
    /// Diagnose connection problems.
    Diagnose,
    /// Fix USB connection problems.
    FixConnection,
    /// Configure the USB gadget through configfs (run by systemd).
    InternalConfigureGadget,
}

/// The parsed command line.
#[derive(Debug, Clone, PartialEq, Eq)]
pub struct Cli {
    pub command: Commands,
}

} // verus!
